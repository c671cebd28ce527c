//! Laws of following logs: what keys do, what pages keep, and what is shown of a log.

use crate::fmt;
use crate::follow::{Action, Ask, Screen, Scroll, Stream};
use crate::logs::Target;
use crate::pager::{Book, Page, Pick, Row};
use crate::search::Tally;
use crate::digits;
use crate::follow;
use crate::log_laws;
use crate::logs;
use crate::logtext;
use crate::pager;
use crate::search;
use crate::text;
use crate::text_laws;
use vstd::prelude::*;

verus! {

// ---------------------------------------------------------------------------
// keys
// ---------------------------------------------------------------------------

/// What keys do where logs are followed: `q`, Ctrl-C, Ctrl-D and Escape end, and nothing else
/// does; `a` and `0` show all jobs; a digit shows the job with that number, where there is one;
/// `j` and `n` show the next job and `k` and `p` the one before, going round; `u` and `d` scroll
/// by half a page, `g` to the oldest line and `G` to the newest; `l` lists the keys.
pub proof fn law_keys(key: u8, jobs: usize, solo: Option<usize>, r: Action)
    requires
        call_ensures(follow::press, (key, jobs, solo), r),
        jobs > 0,
        solo matches Some(j) ==> j < jobs,
    ensures
        r is Quit <==> key == ('q' as u8) || key == 3 || key == 4 || key == 27,
        key == ('a' as u8) || key == ('0' as u8) ==> r == Action::Focus(None),
        ('1' as u8) <= key <= ('9' as u8) ==> if key - ('0' as u8) <= jobs {
            r == Action::Focus(Some((key - ('1' as u8)) as usize))
        } else {
            r is Ignore
        },
        key == ('j' as u8) || key == ('n' as u8) ==> match solo {
            None => r == Action::Focus(Some(0)),
            Some(j) => if j + 1 == jobs {
                r == Action::Focus(Some(0))
            } else {
                r == Action::Focus(Some((j + 1) as usize))
            },
        },
        key == ('k' as u8) || key == ('p' as u8) ==> match solo {
            None => r == Action::Focus(Some((jobs - 1) as usize)),
            Some(j) => if j == 0 {
                r == Action::Focus(Some((jobs - 1) as usize))
            } else {
                r == Action::Focus(Some((j - 1) as usize))
            },
        },
        key == ('u' as u8) <==> r == Action::Scroll(Scroll::HalfUp),
        key == ('d' as u8) <==> r == Action::Scroll(Scroll::HalfDown),
        key == ('g' as u8) <==> r == Action::Scroll(Scroll::Oldest),
        key == ('G' as u8) <==> r == Action::Scroll(Scroll::Newest),
        key == ('l' as u8) <==> r is Mapping,
{
    if let Some(s) = solo {
        follow::lemma_round(s as int, jobs as int);
    }
}

/// What keys do in the picker: `q`, Ctrl-C, Ctrl-D and Escape end, and nothing else does; `j` and
/// `k` move the cursor by a line where there is one; Enter opens the job of the cursor's line, a
/// digit that of the line with that number, and `f` all jobs.
pub proof fn law_picker_keys(key: u8, cursor: usize, targets: &Vec<Target>, r: Pick)
    requires
        call_ensures(pager::pick, (key, cursor, targets), r),
        cursor < targets@.len(),
    ensures
        r is Quit <==> key == ('q' as u8) || key == 3 || key == 4 || key == 27,
        key == ('j' as u8) ==> r == Pick::Cursor(
            if cursor + 1 < targets@.len() { (cursor + 1) as usize } else { cursor },
        ),
        key == ('k' as u8) ==> r == Pick::Cursor(
            if cursor > 0 { (cursor - 1) as usize } else { cursor },
        ),
        key == 10 || key == 13 ==> r == Pick::Open(Some(targets@[cursor as int].jidx)),
        ('1' as u8) <= key <= ('9' as u8) && key - ('0' as u8) <= targets@.len() ==> r == Pick::Open(
            Some(targets@[key - ('1' as u8)].jidx),
        ),
        ('1' as u8) <= key <= ('9' as u8) && key - ('0' as u8) > targets@.len() ==> r is Ignore,
        key == ('f' as u8) <==> r == Pick::Open(None),
{
    let v = logs::target_views(targets@);
    assert(v[cursor as int] == targets@[cursor as int]@);
    if 0x31 <= key <= 0x39 && key - 0x31 < targets@.len() {
        assert(v[key - 0x31] == targets@[key - 0x31]@);
    }
}

/// A key that ends changes no page; one that moves the focus opens the page of the job, or of all;
/// and no key changes what the pages hold.
pub proof fn law_pages_keep(b: &mut Book, key: u8, height: usize, r: bool, i: int)
    requires
        call_ensures(Book::press, (b, key, height), r),
        old(b)@.wf(),
        old(b)@.pages.len() > 1,
        0 <= i < old(b)@.pages.len(),
    ensures
        !r <==> key == ('q' as u8) || key == 3 || key == 4 || key == 27,
        !r ==> final(b)@ == old(b)@,
        final(b)@.pages.len() == old(b)@.pages.len(),
        final(b)@.pages[i].rows == old(b)@.pages[i].rows,
        key == ('a' as u8) ==> final(b)@.open == 0,
        ('1' as u8) <= key <= ('9' as u8) && key - ('0' as u8) < old(b)@.pages.len() ==> final(b)@.open
            == key - ('0' as u8),
        key == ('u' as u8) || key == ('d' as u8) || key == ('g' as u8) || key == ('G' as u8) ==> final(b)@.open
            == old(b)@.open,
{
    assert(old(b)@.pages.len() == old(b).pages.len());
    follow::law_cycle(key, old(b)@.pages.len() - 1, pager::focus_of(old(b)@.open));
}

// ---------------------------------------------------------------------------
// pages
// ---------------------------------------------------------------------------

/// A line goes behind the others of a page, of which the oldest goes where there are more than
/// 3000; a page that is scrolled keeps its place and counts the line.
pub proof fn law_page_push(p: &mut Page, row: Row)
    requires
        call_ensures(Page::push, (p, row), ()),
        old(p)@.wf(),
    ensures
        old(p)@.rows.len() < 3000 ==> final(p)@.rows == old(p)@.rows.push(row@),
        old(p)@.rows.len() == 3000 ==> final(p)@.rows == old(p)@.rows.skip(1).push(row@),
        old(p)@.up == 0 ==> final(p)@.up == 0 && final(p)@.fresh == old(p)@.fresh,
        0 < old(p)@.up < old(p)@.rows.len() ==> final(p)@.up == old(p)@.up + 1 && final(p)@.fresh
            == old(p)@.fresh + 1,
        final(p)@.marked == old(p)@.marked,
{
}

/// Scrolling goes up and down by half a screen, to the top and to the bottom, and not beyond;
/// it keeps the lines.
pub proof fn law_page_scroll(p: &mut Page, s: &Scroll, height: usize)
    requires
        call_ensures(Page::scroll, (p, s, height), ()),
        old(p)@.wf(),
        height >= 2,
        old(p)@.rows.len() > height,
        old(p)@.up <= old(p)@.rows.len() - height,
    ensures
        ({
            let n = old(p)@.rows.len();
            let up = old(p)@.up;
            let half = height as int / 2;
            &&& final(p)@.rows == old(p)@.rows
            &&& final(p)@.marked == old(p)@.marked
            &&& s is Newest ==> final(p)@.up == 0
            &&& s is Oldest ==> final(p)@.up == n - height
            &&& s is HalfUp && up + half <= n - height ==> final(p)@.up == up + half
            &&& s is HalfUp && up + half > n - height ==> final(p)@.up == n - height
            &&& s is HalfDown && up >= half ==> final(p)@.up == up - half
            &&& s is HalfDown && up < half ==> final(p)@.up == 0
            &&& final(p)@.up == 0 ==> final(p)@.fresh == 0
            &&& final(p)@.up >= old(p)@.fresh ==> final(p)@.fresh == old(p)@.fresh
        }),
{
}

/// A line of a log without the pattern goes; any other is the last on the page of its job and on
/// that of all, and on no other; its job is marked exactly where it was, or where another job's
/// page is open and the line is no status line.
pub proof fn law_book_deliver(b: &mut Book, jidx: usize, row: Row, grep: Option<(&str, bool)>, i: int)
    requires
        call_ensures(Book::deliver, (b, jidx, row, grep), ()),
        old(b)@.wf(),
        jidx + 1 < old(b)@.pages.len(),
        0 <= i < old(b)@.pages.len(),
    ensures
        ({
            let wanted = row.sys || (grep matches Some(g) ==> log_laws::stands_in_line(
                row.line@,
                g.0@,
                g.1,
            ));
            let was = old(b)@;
            let now = final(b)@;
            &&& !wanted ==> now == was
            &&& now.open == was.open && now.pages.len() == was.pages.len()
            &&& wanted && (i == 0 || i == jidx + 1) ==> now.pages[i].rows.last() == row@
            &&& i != 0 && i != jidx + 1 ==> now.pages[i] == was.pages[i]
            &&& wanted ==> (now.pages[jidx + 1].marked <==> was.pages[jidx + 1].marked || (!row.sys
                && was.open != 0 && was.open != jidx + 1))
        }),
{
    if let Some(g) = grep {
        log_laws::lemma_found(row.line@, g.0@, g.1);
    }
    pager::law_history(old(b)@, jidx as int, row@);
}

// ---------------------------------------------------------------------------
// lines
// ---------------------------------------------------------------------------

/// A line of a log, where nothing is coloured: behind the label of its log, in brackets, where
/// lines have one.
pub proof fn law_line(
    sc: &Screen,
    t: &Target,
    line: &str,
    sys: bool,
    grep: Option<(&str, bool)>,
    r: String,
)
    requires
        call_ensures(follow::emit, (sc, t, line, sys, grep), r),
        !sc.pal.on,
        grep is None,
    ensures
        !sc.prefix_on ==> r@ == line@.push('\n'),
        sc.prefix_on ==> r@ == seq!['['] + fmt::padded(t.label@, sc.label_w as nat) + seq![']', ' ']
            + line@.push('\n'),
{
    reveal_strlit("[");
    reveal_strlit("]");
    reveal_strlit(" ");
    reveal_strlit("\n");
    if sc.prefix_on {
        assert(r@ == seq!['['] + fmt::padded(t.label@, sc.label_w as nat) + seq![']', ' ']
            + line@.push('\n'));
    } else {
        assert(r@ == line@.push('\n'));
    }
}

/// A line is shown or kept, not both; what is kept goes behind the lines that were kept, of which
/// the oldest goes where there are more than 3000; what is neither changes nothing.
pub proof fn law_delivered(
    sc: &Screen,
    t: &Target,
    line: String,
    sys: bool,
    visible: bool,
    grep: Option<(&str, bool)>,
    ring: &mut Vec<String>,
    r: Option<String>,
)
    requires
        call_ensures(follow::deliver, (sc, t, line, sys, visible, grep, ring), r),
    ensures
        ({
            let wanted = sys || (grep matches Some(g) ==> log_laws::stands_in_line(line@, g.0@, g.1));
            let was = text::texts(old(ring)@);
            let now = text::texts(final(ring)@);
            &&& r is Some <==> wanted && visible
            &&& !(wanted && !visible && !sys) ==> now == was
            &&& wanted && !visible && !sys && was.len() < 3000 ==> now == was.push(line@)
            &&& wanted && !visible && !sys && was.len() >= 3000 ==> now == was.skip(1).push(line@)
        }),
{
    if let Some(g) = grep {
        log_laws::lemma_found(line@, g.0@, g.1);
    }
}

/// A line that is kept goes behind the others, of which the oldest goes where there are more than
/// 3000.
pub proof fn law_keep(ring: &mut Vec<String>, line: String)
    requires
        call_ensures(follow::keep, (ring, line), ()),
    ensures
        ({
            let was = text::texts(old(ring)@);
            let now = text::texts(final(ring)@);
            &&& was.len() < 3000 ==> now == was.push(line@)
            &&& was.len() >= 3000 ==> now == was.skip(1).push(line@)
        }),
{
}

// ---------------------------------------------------------------------------
// streams
// ---------------------------------------------------------------------------

/// A stream looks at a log as `looked` says.
pub proof fn law_look(s: &mut Stream, size: Option<u64>, r: (Option<&'static str>, Ask))
    requires
        call_ensures(Stream::look, (s, size), r),
    ensures
        size is None ==> r.1 is Done && final(s)@.offset == old(s)@.offset && final(s)@.buf == old(
            s,
        )@.buf && final(s)@.opened == old(s)@.opened && (r.0 is Some <==> !old(s)@.opened && !old(
            s,
        )@.wait_announced),
        size matches Some(n) ==> {
            &&& final(s)@.opened
            &&& !old(s)@.opened ==> final(s)@.offset == n && r.1 is Tail && (r.0 is Some <==> old(
                s,
            )@.wait_announced)
            &&& old(s)@.opened && n > old(s)@.offset ==> r.1 is More && final(s)@ == old(s)@
            &&& old(s)@.opened && n == old(s)@.offset ==> r.1 is Settle && final(s)@ == old(s)@
            &&& old(s)@.opened && n < old(s)@.offset ==> final(s)@.offset == 0 && final(s)@.buf.len()
                == 0 && r.0 is Some
        },
{
}

/// What is new in a log goes behind the line that was not finished; the lines that are complete
/// then are shown, each once, and the rest waits.
pub proof fn law_take_more(s: &mut Stream, chunk: &[u8], now: u128, r: Vec<String>)
    requires
        call_ensures(Stream::take_more, (s, chunk, now), r),
        old(s).offset + chunk@.len() <= u64::MAX,
    ensures
        ({
            let all = old(s)@.buf + chunk@;
            let lines = follow::complete(all);
            &&& log_laws::with_feeds(lines) + final(s)@.buf == all
            &&& r@.len() == lines.len()
            &&& forall|k: int|
                0 <= k < r@.len() ==> #[trigger] r@[k]@ == logtext::displayed(lines[k])
            &&& final(s)@.offset == old(s)@.offset + chunk@.len()
            &&& r@.len() > 0 ==> final(s)@.last_partial == now
            &&& r@.len() == 0 ==> final(s)@.last_partial == old(s)@.last_partial
            &&& final(s)@.opened == old(s)@.opened
        }),
{
    let all = old(s)@.buf + chunk@;
    log_laws::law_lines(all);
    let t = text::texts(r@);
    assert(t.len() == r@.len());
    assert forall|k: int| 0 <= k < r@.len() implies #[trigger] r@[k]@ == logtext::displayed(
        follow::complete(all)[k],
    ) by {
        assert(t[k] == r@[k]@);
    }
}

/// The end of a log shows the last of its complete lines, no more than asked for, and the rest
/// waits.
pub proof fn law_take_tail(s: &mut Stream, chunk: &[u8], start: u64, tail_n: usize, r: Vec<String>)
    requires
        call_ensures(Stream::take_tail, (s, chunk, start, tail_n), r),
    ensures
        ({
            let lines = follow::complete(chunk@);
            let whole: int = if start > 0 && lines.len() > 0 { lines.len() - 1 } else { lines.len() as int };
            &&& log_laws::with_feeds(lines) + final(s)@.buf == chunk@
            &&& r@.len() == if whole < tail_n { whole } else { tail_n as int }
            &&& forall|k: int|
                0 <= k < r@.len() ==> #[trigger] r@[k]@ == logtext::displayed(
                    lines[lines.len() - r@.len() + k],
                )
            &&& final(s)@.offset == old(s)@.offset
        }),
{
    let lines = follow::complete(chunk@);
    log_laws::law_lines(chunk@);
    log_laws::law_backlog(chunk@, start, tail_n as int);
    let shown = follow::last_lines(follow::backlog(chunk@, start), tail_n as int);
    let t = text::texts(r@);
    assert(t.len() == r@.len());
    assert forall|k: int| 0 <= k < r@.len() implies #[trigger] r@[k]@ == logtext::displayed(
        lines[lines.len() - r@.len() + k],
    ) by {
        assert(t[k] == r@[k]@);
        assert(t[k] == logtext::displayed(shown[k]));
    }
}

/// What waits for its line end is shown, and waits no longer, exactly where it was rewritten and
/// nothing was shown for five seconds; where that looks like nothing, nothing is shown.
pub proof fn law_settle(s: &mut Stream, now: u128, r: Option<String>)
    requires
        call_ensures(Stream::settle, (s, now), r),
    ensures
        ({
            let due = old(s)@.buf.contains(0x0d) && now - old(s)@.last_partial >= 5_000_000_000;
            let looks = logtext::displayed(old(s)@.buf);
            &&& !due ==> r is None && final(s)@ == old(s)@
            &&& due ==> final(s)@.buf.len() == 0 && final(s)@.last_partial == now
            &&& due && text::trimmed(looks).len() > 0 ==> r is Some && r->0@ == looks
            &&& due && text::trimmed(looks).len() == 0 ==> r is None
            &&& final(s)@.offset == old(s)@.offset && final(s)@.opened == old(s)@.opened
        }),
{
}

// ---------------------------------------------------------------------------
// searching
// ---------------------------------------------------------------------------

/// A log that was searched counts as scanned, its matches add up, and it counts as hit exactly
/// where it has some; one that could not be read counts as unreadable, and as nothing else.
pub proof fn law_count_file(t: &mut Tally, found: Option<u64>)
    requires
        call_ensures(search::count_file, (t, found), ()),
        old(t).scanned < u64::MAX,
        old(t).files_hit < u64::MAX,
        old(t).unreadable < u64::MAX,
        found matches Some(n) ==> old(t).total + n <= u64::MAX,
    ensures
        match found {
            Some(n) => {
                &&& final(t).scanned == old(t).scanned + 1
                &&& final(t).total == old(t).total + n
                &&& n > 0 ==> final(t).files_hit == old(t).files_hit + 1
                &&& n == 0 ==> final(t).files_hit == old(t).files_hit
                &&& final(t).unreadable == old(t).unreadable
            },
            None => {
                &&& final(t).unreadable == old(t).unreadable + 1
                &&& final(t).scanned == old(t).scanned
                &&& final(t).total == old(t).total
                &&& final(t).files_hit == old(t).files_hit
            },
        },
{
}

/// The size of a screen is the two numbers that a terminal says, where it has room for a page:
/// three rows and a column.
pub proof fn law_screen_size(size: &str, r: Option<(usize, usize)>, rows: nat, cols: nat, rest: Seq<char>)
    requires
        call_ensures(pager::read_size, (size,), r),
        rows <= usize::MAX,
        cols <= usize::MAX,
        rest.len() > 0 ==> text::is_space(rest[0]),
        size@ == digits::decimal(rows) + seq![' '] + digits::decimal(cols) + rest,
    ensures
        rows >= 3 && cols >= 1 ==> r == Some((rows as usize, cols as usize)),
        rows < 3 || cols == 0 ==> r is None,
{
    let a = digits::decimal(rows);
    let b = digits::decimal(cols);
    lemma_solid(rows);
    lemma_solid(cols);
    let behind = seq![' '] + b + rest;
    assert(size@ == Seq::<char>::empty() + a + behind);
    text_laws::law_words(Seq::empty(), a, behind);
    text_laws::law_words(seq![' '], b, rest);
    digits::law_read_back(rows, usize::MAX as nat);
    digits::law_read_back(cols, usize::MAX as nat);
    assert(text::words(size@)[0] == a);
    assert(text::words(size@)[1] == b);
}

/// A number in decimal notation holds no white space.
proof fn lemma_solid(n: nat)
    ensures
        text_laws::solid(digits::decimal(n)),
        digits::decimal(n).len() > 0,
{
    let d = digits::decimal(n);
    digits::lemma_decimal_digits(n);
    assert forall|i: int| 0 <= i < d.len() implies !text::is_space(#[trigger] d[i]) by {
        assert(digits::is_digit(d[i]));
    }
}

} // verus!
