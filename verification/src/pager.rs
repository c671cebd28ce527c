//! A full-screen view of logs: a page for each job, and one for all of them.
//!
//! Page 0 shows the logs of all jobs, and page `j + 1` those of the job at index `j`.

use crate::follow::{Action, Route, Scroll};
use crate::logs::{FileInfo, Target, TargetView};
use crate::paint::Pal;
use crate::view::{Entry, Viewport};
use crate::digits;
use crate::find;
use crate::fmt;
use crate::follow;
use crate::logs;
use crate::paint;
use crate::pbs;
use crate::table;
use crate::text;
use crate::view;
use vstd::prelude::*;

verus! {

// ---------------------------------------------------------------------------
// pages
// ---------------------------------------------------------------------------

/// A line of a page.
pub struct Row {
    /// The index of the log that it is from.
    pub target: usize,
    pub line: String,
    /// Is it a status line?
    pub sys: bool,
}

/// A line of a page.
pub struct RowView {
    pub target: int,
    pub line: Seq<char>,
    pub sys: bool,
}

impl View for Row {
    type V = RowView;

    open spec fn view(&self) -> RowView {
        RowView { target: self.target as int, line: self.line@, sys: self.sys }
    }
}

/// The views of lines.
pub open spec fn row_views(rows: Seq<Row>) -> Seq<RowView> {
    rows.map_values(|r: Row| r@)
}

/// A page.
pub struct Page {
    /// The last lines.
    pub rows: Vec<Row>,
    /// How many of them are below the screen.
    pub up: usize,
    /// How many of those came while the page was scrolled.
    pub fresh: usize,
    /// Did the job print something while it was hidden?
    pub marked: bool,
}

/// A page.
pub struct PageView {
    pub rows: Seq<RowView>,
    pub up: int,
    pub fresh: int,
    pub marked: bool,
}

impl View for Page {
    type V = PageView;

    open spec fn view(&self) -> PageView {
        PageView {
            rows: row_views(self.rows@),
            up: self.up as int,
            fresh: self.fresh as int,
            marked: self.marked,
        }
    }
}

impl PageView {
    /// A page keeps the last few thousand lines; what came while it was scrolled is below the
    /// screen.
    pub open spec fn wf(self) -> bool {
        &&& 0 <= self.fresh <= self.up <= self.rows.len()
        &&& self.rows.len() <= follow::RING
    }
}

/// An empty page.
pub open spec fn empty_page() -> PageView {
    PageView { rows: Seq::empty(), up: 0, fresh: 0, marked: false }
}

/// The last lines that a page keeps.
pub open spec fn last_rows(rows: Seq<RowView>) -> Seq<RowView> {
    if rows.len() > follow::RING {
        rows.skip(1)
    } else {
        rows
    }
}

/// A page with one more line. A page that is scrolled stays where it is, and counts the line.
pub open spec fn with_row(p: PageView, row: RowView) -> PageView {
    let rows = last_rows(p.rows.push(row));
    if p.up > 0 {
        let up = fmt::least(p.up + 1, rows.len() as int);
        PageView { rows, up, fresh: fmt::least(p.fresh + 1, up), marked: p.marked }
    } else {
        PageView { rows, ..p }
    }
}

/// How far up a page can be scrolled where `height` lines fit the screen.
pub open spec fn most_up(len: int, height: int) -> int {
    if len > height {
        len - height
    } else {
        0
    }
}

/// Half a page, and a line at least.
pub open spec fn half_page(height: int) -> int {
    if height >= 2 {
        height / 2
    } else {
        1
    }
}

/// A page once it is scrolled.
pub open spec fn scrolled(p: PageView, s: Scroll, height: int) -> PageView {
    let top = most_up(p.rows.len() as int, height);
    let up = match s {
        Scroll::HalfUp => fmt::least(p.up + half_page(height), top),
        Scroll::HalfDown => fmt::least(
            if p.up > half_page(height) {
                p.up - half_page(height)
            } else {
                0
            },
            top,
        ),
        Scroll::Oldest => top,
        Scroll::Newest => 0,
    };
    PageView { up, fresh: fmt::least(p.fresh, up), ..p }
}

/// The lines of a page that are on the screen.
pub open spec fn on_screen(p: PageView, height: int) -> Seq<RowView> {
    let bottom = p.rows.len() - fmt::least(p.up, most_up(p.rows.len() as int, height));
    p.rows.subrange(most_up(bottom, height), bottom)
}

/// The smaller of two numbers.
fn smaller(a: usize, b: usize) -> (r: usize)
    ensures
        r == fmt::least(a as int, b as int),
{
    if a < b {
        a
    } else {
        b
    }
}

/// How far up a page can be scrolled.
fn top_of(len: usize, height: usize) -> (r: usize)
    ensures
        r == most_up(len as int, height as int),
{
    len.saturating_sub(height)
}

impl Page {
    /// An empty page.
    pub fn new() -> (r: Page)
        ensures
            r@ == empty_page(),
            r@.wf(),
    {
        let r = Page { rows: Vec::new(), up: 0, fresh: 0, marked: false };
        assert(r@.rows == Seq::<RowView>::empty());
        r
    }

    /// Adds a line.
    pub fn push(&mut self, row: Row)
        requires
            old(self)@.wf(),
        ensures
            final(self)@ == with_row(old(self)@, row@),
            final(self)@.wf(),
    {
        let ghost more = row_views(self.rows@).push(row@);
        self.rows.push(row);
        assert(row_views(self.rows@) == more);
        if self.rows.len() > follow::RING {
            self.rows.remove(0);
            assert(row_views(self.rows@) == more.skip(1));
        }
        if self.up > 0 {
            self.up = smaller(self.up + 1, self.rows.len());
            self.fresh = smaller(self.fresh + 1, self.up);
        }
    }

    /// Scrolls.
    pub fn scroll(&mut self, s: &Scroll, height: usize)
        requires
            old(self)@.wf(),
        ensures
            final(self)@ == scrolled(old(self)@, *s, height as int),
            final(self)@.wf(),
    {
        let top: usize = top_of(self.rows.len(), height);
        let half: usize = if height >= 2 {
            height / 2
        } else {
            1
        };
        self.up = match s {
            Scroll::HalfUp => smaller(self.up.saturating_add(half), top),
            Scroll::HalfDown => smaller(self.up.saturating_sub(half), top),
            Scroll::Oldest => top,
            Scroll::Newest => 0,
        };
        self.fresh = smaller(self.fresh, self.up);
    }

    /// The indices of the lines on the screen: the first, and the one behind the last.
    pub fn span(&self, height: usize) -> (r: (usize, usize))
        requires
            self@.wf(),
        ensures
            r.0 <= r.1 <= self.rows@.len(),
            r.1 - r.0 <= height,
            row_views(self.rows@).subrange(r.0 as int, r.1 as int) == on_screen(
                self@,
                height as int,
            ),
    {
        let len: usize = self.rows.len();
        let bottom: usize = len - smaller(self.up, top_of(len, height));
        (top_of(bottom, height), bottom)
    }
}

/// No more lines are on the screen than fit it; and it is full where there are enough.
pub proof fn law_screen(p: PageView, height: int)
    requires
        p.wf(),
        height >= 0,
    ensures
        on_screen(p, height).len() == fmt::least(p.rows.len() as int, height),
{
}

/// A page that is not scrolled shows the newest lines, and goes on to do so.
pub proof fn law_tailing(p: PageView, row: RowView, height: int)
    requires
        p.wf(),
        height > 0,
        p.up == 0,
    ensures
        with_row(p, row).up == 0,
        on_screen(with_row(p, row), height).last() == row,
{
}

/// A page that is scrolled does not move when a line comes, and counts the line; unless its
/// oldest line goes, and is on the screen.
pub proof fn law_scrolled_stays(p: PageView, row: RowView, height: int)
    requires
        p.wf(),
        height > 0,
        0 < p.up <= most_up(p.rows.len() as int, height),
        p.rows.len() < follow::RING || p.up < most_up(p.rows.len() as int, height),
    ensures
        on_screen(with_row(p, row), height) == on_screen(p, height),
        with_row(p, row).fresh == p.fresh + 1,
{
}

/// `g` shows the oldest line, and `G` the newest.
pub proof fn law_ends(p: PageView, height: int)
    requires
        p.wf(),
        height > 0,
        p.rows.len() > 0,
    ensures
        on_screen(scrolled(p, Scroll::Oldest, height), height)[0] == p.rows[0],
        on_screen(scrolled(p, Scroll::Newest, height), height).last() == p.rows.last(),
        scrolled(p, Scroll::Newest, height).fresh == 0,
{
}

/// Half a page down undoes half a page up, where there is as much.
pub proof fn law_half_pages(p: PageView, height: int)
    requires
        p.wf(),
        height > 0,
        p.up + half_page(height) <= most_up(p.rows.len() as int, height),
    ensures
        scrolled(scrolled(p, Scroll::HalfUp, height), Scroll::HalfDown, height) == p,
{
}

// ---------------------------------------------------------------------------
// the book of pages
// ---------------------------------------------------------------------------

/// The pages, one of which is open.
pub struct Book {
    pub pages: Vec<Page>,
    pub open: usize,
}

/// The pages, one of which is open.
pub struct BookView {
    pub pages: Seq<PageView>,
    pub open: int,
}

/// The views of pages.
pub open spec fn page_views(pages: Seq<Page>) -> Seq<PageView> {
    pages.map_values(|p: Page| p@)
}

impl View for Book {
    type V = BookView;

    open spec fn view(&self) -> BookView {
        BookView { pages: page_views(self.pages@), open: self.open as int }
    }
}

impl BookView {
    /// There is a page for all jobs at least, and one of the pages is open.
    pub open spec fn wf(self) -> bool {
        &&& 0 <= self.open < self.pages.len()
        &&& forall|i: int| 0 <= i < self.pages.len() ==> (#[trigger] self.pages[i]).wf()
    }

    /// Is a job hidden? It is where the page of another job is open.
    pub open spec fn hides(self, jidx: int) -> bool {
        self.open != 0 && self.open != jidx + 1
    }
}

/// Pages with one more line of the job at index `jidx`: it goes to the job's page and to the
/// page of all; and the job is marked where it is hidden, unless it is a status line.
pub open spec fn with_line(b: BookView, jidx: int, row: RowView) -> BookView {
    let all = with_row(b.pages[0], row);
    let own = with_row(b.pages[jidx + 1], row);
    let own = if b.hides(jidx) && !row.sys {
        PageView { marked: true, ..own }
    } else {
        own
    };
    BookView { pages: b.pages.update(0, all).update(jidx + 1, own), ..b }
}

/// Pages once a line of a log is read: where a pattern is given, lines without it go.
pub open spec fn delivered(
    b: BookView,
    jidx: int,
    row: RowView,
    grep: Option<(Seq<char>, bool)>,
) -> BookView {
    match follow::routed(row.line, row.sys, true, grep) {
        Route::Skip => b,
        _ => with_line(b, jidx, row),
    }
}

/// Pages once page `k` is opened, which is then marked no longer.
pub open spec fn turned(b: BookView, k: int) -> BookView {
    BookView {
        pages: b.pages.update(k, (PageView { marked: false, ..b.pages[k] })),
        open: k,
    }
}

/// Pages once the open one is scrolled.
pub open spec fn scrolled_book(b: BookView, s: Scroll, height: int) -> BookView {
    BookView { pages: b.pages.update(b.open, scrolled(b.pages[b.open], s, height)), ..b }
}

/// Pages once a key is pressed, and whether to go on.
pub open spec fn pressed(b: BookView, key: u8, height: int) -> (BookView, bool) {
    match follow::action(key, b.pages.len() - 1, focus_of(b.open)) {
        Action::Quit => (b, false),
        Action::Focus(to) => (turned(b, page_of(to)), true),
        Action::Scroll(s) => (scrolled_book(b, s, height), true),
        Action::Mapping => (b, true),
        Action::Ignore => (b, true),
    }
}

/// The job of a page; none where it is the page of all.
pub open spec fn focus_of(page: int) -> Option<usize> {
    if page == 0 {
        None
    } else {
        Some((page - 1) as usize)
    }
}

/// The page of a job, or of all.
pub open spec fn page_of(solo: Option<usize>) -> int {
    match solo {
        Some(j) => j + 1,
        None => 0,
    }
}

impl Book {
    /// Empty pages for `jobs` jobs, with the page of a job or of all open.
    pub fn new(jobs: usize, solo: Option<usize>) -> (r: Book)
        requires
            jobs < usize::MAX,
            solo matches Some(j) ==> j < jobs,
        ensures
            r@.wf(),
            r@.pages.len() == jobs + 1,
            r@.open == page_of(solo),
            forall|i: int| 0 <= i <= jobs ==> (#[trigger] r@.pages[i]) == empty_page(),
    {
        let mut pages: Vec<Page> = Vec::new();
        let mut i: usize = 0;
        while i <= jobs
            invariant
                i <= jobs + 1,
                jobs < usize::MAX,
                pages@.len() == i,
                forall|k: int| 0 <= k < i ==> (#[trigger] pages@[k])@ == empty_page(),
            decreases jobs + 1 - i,
        {
            pages.push(Page::new());
            i += 1;
        }
        let open: usize = match solo {
            Some(j) => j + 1,
            None => 0,
        };
        Book { pages, open }
    }

    /// The job whose page is open, or none where it is the page of all.
    pub fn solo(&self) -> (r: Option<usize>)
        ensures
            r == focus_of(self.open as int),
    {
        if self.open == 0 {
            None
        } else {
            Some(self.open - 1)
        }
    }

    /// Takes a line of the job at index `jidx`.
    pub fn deliver(&mut self, jidx: usize, row: Row, grep: Option<(&str, bool)>)
        requires
            old(self)@.wf(),
            jidx + 1 < old(self)@.pages.len(),
        ensures
            final(self)@ == delivered(old(self)@, jidx as int, row@, follow::opt_pattern(grep)),
            final(self)@.wf(),
    {
        match follow::route(row.line.as_str(), row.sys, true, grep) {
            Route::Skip => {
                return;
            },
            _ => {},
        }
        let ghost was = self@;
        let total: usize = self.pages.len();
        assert(jidx + 1 < total);
        let hidden = self.open != 0 && self.open != jidx + 1 && !row.sys;
        let copy = Row { target: row.target, line: row.line.clone(), sys: row.sys };
        assert(was.pages[0] == self.pages@[0]@ && was.pages[jidx + 1] == self.pages@[jidx + 1]@);
        self.pages[0].push(copy);
        assert(self@.pages == was.pages.update(0, with_row(was.pages[0], row@)));
        assert(self@.pages[jidx + 1] == self.pages@[jidx + 1]@);
        self.pages[jidx + 1].push(row);
        if hidden {
            self.pages[jidx + 1].marked = true;
        }
        assert(self@.pages == with_line(was, jidx as int, row@).pages);
    }

    /// Opens page `k`.
    pub fn turn(&mut self, k: usize)
        requires
            old(self)@.wf(),
            k < old(self)@.pages.len(),
        ensures
            final(self)@ == turned(old(self)@, k as int),
            final(self)@.wf(),
    {
        let ghost was = self@;
        assert(was.pages[k as int] == self.pages@[k as int]@);
        self.open = k;
        self.pages[k].marked = false;
        assert(self@.pages == turned(was, k as int).pages);
    }

    /// Scrolls the open page.
    pub fn scroll(&mut self, s: &Scroll, height: usize)
        requires
            old(self)@.wf(),
        ensures
            final(self)@ == scrolled_book(old(self)@, *s, height as int),
            final(self)@.wf(),
    {
        let ghost was = self@;
        let k: usize = self.open;
        assert(was.pages[k as int] == self.pages@[k as int]@);
        self.pages[k].scroll(s, height);
        assert(self@.pages == scrolled_book(was, *s, height as int).pages);
    }

    /// Does what a key asks for; `false` where it asks to end.
    pub fn press(&mut self, key: u8, height: usize) -> (r: bool)
        requires
            old(self)@.wf(),
            old(self)@.pages.len() > 1,
        ensures
            (final(self)@, r) == pressed(old(self)@, key, height as int),
            final(self)@.wf(),
    {
        let jobs: usize = self.pages.len() - 1;
        proof {
            follow::law_cycle(key, jobs as int, focus_of(self@.open));
        }
        match follow::press(key, jobs, self.solo()) {
            Action::Quit => false,
            Action::Focus(to) => {
                let k: usize = match to {
                    Some(j) => j + 1,
                    None => 0,
                };
                self.turn(k);
                true
            },
            Action::Scroll(s) => {
                self.scroll(&s, height);
                true
            },
            Action::Mapping => true,
            Action::Ignore => true,
        }
    }
}

/// A page that is opened shows its lines as they were, and is marked no longer; the others stay
/// as they are.
pub proof fn law_turned(b: BookView, k: int)
    requires
        b.wf(),
        0 <= k < b.pages.len(),
    ensures
        turned(b, k).wf(),
        turned(b, k).pages[k].rows == b.pages[k].rows,
        turned(b, k).pages[k].up == b.pages[k].up,
        !turned(b, k).pages[k].marked,
        forall|i: int| 0 <= i < b.pages.len() && i != k ==> turned(b, k).pages[i] == b.pages[i],
{
}

/// A line of a job is the last one on its page and on the page of all, whichever page is open,
/// and other pages stay as they are; its job is marked if it printed the line while hidden.
pub proof fn law_history(b: BookView, jidx: int, row: RowView)
    requires
        b.wf(),
        0 <= jidx < b.pages.len() - 1,
    ensures
        with_line(b, jidx, row).pages[0].rows.last() == row,
        with_line(b, jidx, row).pages[jidx + 1].rows.last() == row,
        b.hides(jidx) && !row.sys ==> with_line(b, jidx, row).pages[jidx + 1].marked,
        !b.hides(jidx) ==> with_line(b, jidx, row).pages[jidx + 1].marked
            == b.pages[jidx + 1].marked,
        forall|i: int|
            0 < i < b.pages.len() && i != jidx + 1 ==> with_line(b, jidx, row).pages[i]
                == b.pages[i],
{
}

// ---------------------------------------------------------------------------
// the screen
// ---------------------------------------------------------------------------

/// The lines of the screen that are not the log's: the title and the tabs.
pub const FRAME: usize = 2;

/// The number of characters of a name on a tab.
pub const W_TAB: usize = 6;

/// What `stty size` says of the screen: its rows and columns; nothing where it is too small for
/// a page, or its size is not known.
pub open spec fn size_said(t: Seq<char>) -> Option<(usize, usize)> {
    let w = text::words(t);
    if w.len() >= 2 {
        match (digits::read_nat(w[0], usize::MAX as nat), digits::read_nat(w[1], usize::MAX as nat)) {
            (Some(rows), Some(cols)) => if rows > FRAME && cols > 0 {
                Some((rows as usize, cols as usize))
            } else {
                None
            },
            _ => None,
        }
    } else {
        None
    }
}

/// The rows and columns of the screen, from what `stty size` printed.
pub fn screen_size(stdout: &[u8]) -> (r: Option<(usize, usize)>)
    ensures
        r == size_said(text::utf8_lossy(stdout@)),
{
    read_size(text::lossy(stdout).as_str())
}

/// The rows and columns that a text like `24 80` says.
pub fn read_size(size: &str) -> (r: Option<(usize, usize)>)
    ensures
        r == size_said(size@),
{
    let w = text::split_whitespace(size);
    assert(text::words(size@).len() == w@.len());
    if w.len() < 2 {
        return None;
    }
    assert(text::words(size@)[0] == w@[0]@);
    assert(text::words(size@)[1] == w@[1]@);
    match (digits::read_usize(w[0].as_str()), digits::read_usize(w[1].as_str())) {
        (Some(rows), Some(cols)) => if rows > FRAME && cols > 0 {
            Some((rows, cols))
        } else {
            None
        },
        _ => None,
    }
}

/// A line of `width` characters at most, whose end `tail` is cut last.
pub open spec fn framed(main: Seq<char>, tail: Seq<char>, width: nat) -> Seq<char> {
    if tail.len() >= width {
        fmt::ellipsized(tail, width)
    } else {
        fmt::ellipsized(main, (width - tail.len()) as nat) + tail
    }
}

/// A line of `width` characters at most, whose end `tail` is cut last.
fn frame(main: &str, tail: &str, width: usize) -> (r: String)
    ensures
        r@ == framed(main@, tail@, width as nat),
{
    let n: usize = tail.unicode_len();
    if n >= width {
        fmt::ellipsize(tail, width)
    } else {
        let mut s = fmt::ellipsize(main, width - n);
        s.append(tail);
        s
    }
}

/// A framed line fits.
pub proof fn law_framed(main: Seq<char>, tail: Seq<char>, width: nat)
    ensures
        framed(main, tail, width).len() <= width,
        main.len() + tail.len() <= width && tail.len() < width ==> framed(main, tail, width)
            == main + tail,
{
}

/// What the title says of a job.
pub open spec fn title_parts(e: Entry, v: Viewport) -> Seq<Seq<char>> {
    let j = *e.job;
    let p0 = seq![pbs::state_label(j.state), pbs::resource_text(pbs::opt_text(j.rtype), j.nodect)];
    let p1 = if j.ngpus > 0 {
        p0.push(digits::decimal(j.ngpus as nat) + " GPU"@)
    } else {
        p0
    };
    let p2 = if j.frac_spec() is Some {
        p1.push("wall "@ + e.share.percent@ + "% ("@ + table::time_text(j) + ")"@)
    } else {
        p1
    };
    let p3 = if table::is_priced(j, v) {
        p2.push(table::points_pair(e, v) + " pt"@)
    } else {
        p2
    };
    if j.nodes@.len() > 0 {
        p3.push(table::node_text(text::texts(j.nodes@)))
    } else {
        p3
    }
}

/// The title of the page of a job.
pub open spec fn job_title(e: Entry, v: Viewport) -> Seq<char> {
    " ● "@ + e.job.short_id@ + " "@ + e.job.name@ + " — "@ + text::joined(title_parts(e, v), " · "@)
}

/// The title of the page of all jobs.
pub open spec fn all_title(jobs: nat, logs: nat) -> Seq<char> {
    " ● all jobs — "@ + digits::decimal(jobs) + (if jobs == 1 {
        " job"@
    } else {
        " jobs"@
    }) + " · "@ + digits::decimal(logs) + (if logs == 1 {
        " log"@
    } else {
        " logs"@
    })
}

/// How many lines came below the screen.
pub open spec fn fresh_text(n: nat) -> Seq<char> {
    if n == 0 {
        Seq::empty()
    } else {
        " · "@ + digits::decimal(n) + (if n == 1 {
            " new line below"@
        } else {
            " new lines below"@
        })
    }
}

/// The title of the open page, in the colour of its job.
pub open spec fn title_line(b: BookView, entries: Seq<Entry>, logs: nat, v: Viewport) -> Seq<char> {
    let tail = fresh_text(b.pages[b.open].fresh as nat);
    if b.open == 0 {
        paint::painted(v.color, "1"@, framed(all_title(entries.len(), logs), tail, v.width as nat))
    } else {
        paint::painted(
            v.color,
            logs::job_code(b.open - 1),
            framed(job_title(entries[b.open - 1], v), tail, v.width as nat),
        )
    }
}

/// What the title says of a job.
fn show_parts(e: &Entry, view: &Viewport) -> (r: Vec<String>)
    ensures
        text::texts(r@) == title_parts(*e, *view),
{
    let j = e.job;
    let mut parts: Vec<String> = Vec::new();
    view::push_part(&mut parts, j.state.label().to_owned());
    view::push_part(&mut parts, j.resource_label());
    assert(text::texts(parts@) == seq![
        pbs::state_label(j.state),
        pbs::resource_text(pbs::opt_text(j.rtype), j.nodect),
    ]);
    if j.ngpus > 0 {
        let mut t = digits::show(j.ngpus);
        t.append(" GPU");
        view::push_part(&mut parts, t);
    }
    if j.walltime_frac().is_some() {
        let mut t = "wall ".to_owned();
        t.append(e.share.percent.as_str());
        t.append("% (");
        t.append(table::show_time(j).as_str());
        t.append(")");
        view::push_part(&mut parts, t);
    }
    if j.points_reserved(view.rates).is_some() {
        let mut t = table::show_points(e, view);
        t.append(" pt");
        view::push_part(&mut parts, t);
    }
    if j.nodes.len() > 0 {
        view::push_part(&mut parts, table::show_nodes(&j.nodes));
    }
    parts
}

/// The title of the page of a job.
fn show_job_title(e: &Entry, view: &Viewport) -> (r: String)
    ensures
        r@ == job_title(*e, *view),
{
    let mut s = " ● ".to_owned();
    s.append(e.job.short_id.as_str());
    s.append(" ");
    s.append(e.job.name.as_str());
    s.append(" — ");
    s.append(text::join(&show_parts(e, view), " · ").as_str());
    s
}

/// The title of the page of all jobs.
fn show_all_title(jobs: usize, logs: usize) -> (r: String)
    ensures
        r@ == all_title(jobs as nat, logs as nat),
{
    let mut s = " ● all jobs — ".to_owned();
    s.append(digits::show(jobs as u64).as_str());
    s.append(
        if jobs == 1 {
            " job"
        } else {
            " jobs"
        },
    );
    s.append(" · ");
    s.append(digits::show(logs as u64).as_str());
    s.append(
        if logs == 1 {
            " log"
        } else {
            " logs"
        },
    );
    s
}

/// How many lines came below the screen.
fn show_fresh(n: usize) -> (r: String)
    ensures
        r@ == fresh_text(n as nat),
{
    if n == 0 {
        return String::new();
    }
    let mut s = " · ".to_owned();
    s.append(digits::show(n as u64).as_str());
    s.append(
        if n == 1 {
            " new line below"
        } else {
            " new lines below"
        },
    );
    s
}

/// The title of the open page, in the colour of its job.
fn show_title(b: &Book, entries: &Vec<Entry>, logs: usize, view: &Viewport) -> (r: String)
    requires
        b@.wf(),
        b@.pages.len() == entries@.len() + 1,
    ensures
        r@ == title_line(b@, entries@, logs as nat, *view),
{
    assert(b@.pages[b.open as int] == b.pages@[b.open as int]@);
    let tail = show_fresh(b.pages[b.open].fresh);
    if b.open == 0 {
        view.c(
            "1",
            frame(
                show_all_title(entries.len(), logs).as_str(),
                tail.as_str(),
                view.width,
            ).as_str(),
        )
    } else {
        let j: usize = b.open - 1;
        view.c(
            logs::job_color(j),
            frame(
                show_job_title(&entries[j], view).as_str(),
                tail.as_str(),
                view.width,
            ).as_str(),
        )
    }
}

/// The tab of the page of all jobs.
pub open spec fn all_tab(open: bool) -> Seq<char> {
    if open {
        " [a:all]"@
    } else {
        " a:all"@
    }
}

/// The tab of the job at index `i`: its key, where it has one, its id, a star where it is
/// marked, and its name.
pub open spec fn tab(e: Entry, i: int, marked: bool, open: bool) -> Seq<char> {
    let key = if i < follow::KEYS {
        digits::decimal((i + 1) as nat) + ":"@
    } else {
        Seq::empty()
    };
    let inside = key + e.job.short_id@ + (if marked {
        "*"@
    } else {
        ""@
    }) + " "@ + fmt::ellipsized(e.job.name@, W_TAB as nat);
    if open {
        "  ["@ + inside + "]"@
    } else {
        "  "@ + inside
    }
}

/// The tabs of all jobs and of the first `n` jobs.
pub open spec fn tabs(b: BookView, entries: Seq<Entry>, n: nat) -> Seq<char>
    decreases n,
{
    if n == 0 {
        all_tab(b.open == 0)
    } else {
        tabs(b, entries, (n - 1) as nat) + tab(
            entries[n - 1],
            n - 1,
            b.pages[n as int].marked,
            b.open == n,
        )
    }
}

/// The keys that a page takes.
pub open spec fn hints() -> Seq<char> {
    "   j/k page · u/d scroll · q quit"@
}

/// The line of the tabs.
pub open spec fn tab_line(b: BookView, entries: Seq<Entry>, v: Viewport) -> Seq<char> {
    paint::dimmed(v.color, framed(tabs(b, entries, entries.len()), hints(), v.width as nat))
}

/// The tab of the job at index `i`.
fn show_tab(e: &Entry, i: usize, marked: bool, open: bool) -> (r: String)
    ensures
        r@ == tab(*e, i as int, marked, open),
{
    let mut inside = String::new();
    if i < follow::KEYS {
        inside.append(digits::show((i + 1) as u64).as_str());
        inside.append(":");
    }
    inside.append(e.job.short_id.as_str());
    inside.append(
        if marked {
            "*"
        } else {
            ""
        },
    );
    inside.append(" ");
    inside.append(fmt::ellipsize(e.job.name.as_str(), W_TAB).as_str());
    let ghost key: Seq<char> = if i < follow::KEYS {
        digits::decimal((i + 1) as nat) + ":"@
    } else {
        Seq::empty()
    };
    assert(inside@ == key + e.job.short_id@ + (if marked {
        "*"@
    } else {
        ""@
    }) + " "@ + fmt::ellipsized(e.job.name@, W_TAB as nat));
    let mut s = if open {
        "  [".to_owned()
    } else {
        "  ".to_owned()
    };
    s.append(inside.as_str());
    if open {
        s.append("]");
    }
    s
}

/// The line of the tabs.
fn show_tabs(b: &Book, entries: &Vec<Entry>, view: &Viewport) -> (r: String)
    requires
        b@.wf(),
        b@.pages.len() == entries@.len() + 1,
    ensures
        r@ == tab_line(b@, entries@, *view),
{
    let mut line = if b.open == 0 {
        " [a:all]".to_owned()
    } else {
        " a:all".to_owned()
    };
    let mut i: usize = 0;
    while i < entries.len()
        invariant
            i <= entries@.len(),
            b@.wf(),
            b@.pages.len() == entries@.len() + 1,
            line@ == tabs(b@, entries@, i as nat),
        decreases entries@.len() - i,
    {
        let total: usize = b.pages.len();
        assert(i + 1 < total);
        assert(b@.pages[i + 1] == b.pages@[i + 1]@);
        let t = show_tab(&entries[i], i, b.pages[i + 1].marked, b.open == i + 1);
        line.append(t.as_str());
        i += 1;
    }
    view.dim(frame(line.as_str(), "   j/k page · u/d scroll · q quit", view.width).as_str())
}

/// A line of a log on the screen, cut to its width: a status line is faint, and a pattern is
/// marked.
pub open spec fn log_line(
    line: Seq<char>,
    sys: bool,
    grep: Option<(Seq<char>, bool)>,
    width: nat,
    on: bool,
) -> Seq<char> {
    let cut = fmt::ellipsized(line, width);
    if sys {
        paint::dimmed(on, cut)
    } else {
        match grep {
            Some(g) => find::highlighted(on, cut, g.0, g.1),
            None => cut,
        }
    }
}

/// A line on the screen. On the page of all jobs, the label of its log stands before it.
pub open spec fn screen_line(
    t: Target,
    row: RowView,
    all: bool,
    grep: Option<(Seq<char>, bool)>,
    label_w: nat,
    v: Viewport,
) -> Seq<char> {
    if all {
        let label = fmt::ellipsized("["@ + fmt::padded(t.label@, label_w) + "] "@, v.width as nat);
        paint::painted(v.color, t.color@, label) + log_line(
            row.line,
            row.sys,
            grep,
            (v.width - label.len()) as nat,
            v.color,
        ) + "\n"@
    } else {
        log_line(row.line, row.sys, grep, v.width as nat, v.color) + "\n"@
    }
}

/// Lines on the screen.
pub open spec fn screen_lines(
    rows: Seq<RowView>,
    targets: Seq<Target>,
    all: bool,
    grep: Option<(Seq<char>, bool)>,
    label_w: nat,
    v: Viewport,
) -> Seq<char>
    decreases rows.len(),
{
    if rows.len() == 0 {
        Seq::empty()
    } else {
        screen_lines(rows.drop_last(), targets, all, grep, label_w, v) + screen_line(
            targets[rows.last().target],
            rows.last(),
            all,
            grep,
            label_w,
            v,
        )
    }
}

/// The lines of the open page, and blank ones up to the height; or else that its job has no logs.
pub open spec fn body_text(
    b: BookView,
    targets: Seq<Target>,
    grep: Option<(Seq<char>, bool)>,
    height: nat,
    v: Viewport,
) -> Seq<char> {
    if b.open > 0 && !follow::has_log(targets, (b.open - 1) as usize) && height > 0 {
        paint::dimmed(
            v.color,
            fmt::ellipsized(" (no log files for this job)"@, v.width as nat),
        ) + text::repeated('\n', height)
    } else {
        let rows = on_screen(b.pages[b.open], height as int);
        screen_lines(
            rows,
            targets,
            b.open == 0,
            grep,
            logs::widest(logs::target_views(targets)),
            v,
        ) + text::repeated('\n', (height - rows.len()) as nat)
    }
}

/// The screen, `height` lines of which are for the log: the title, the open page and the tabs.
pub open spec fn screen_text(
    b: BookView,
    entries: Seq<Entry>,
    targets: Seq<Target>,
    grep: Option<(Seq<char>, bool)>,
    height: nat,
    v: Viewport,
) -> Seq<char> {
    "\x1b[H\x1b[J"@ + title_line(b, entries, targets.len(), v) + "\n"@ + body_text(
        b,
        targets,
        grep,
        height,
        v,
    ) + tab_line(b, entries, v)
}

/// Without colours, no line of the screen is wider than the screen.
pub proof fn law_lines_fit(
    b: BookView,
    entries: Seq<Entry>,
    logs: nat,
    t: Target,
    row: RowView,
    grep: Option<(Seq<char>, bool)>,
    label_w: nat,
    v: Viewport,
)
    requires
        !v.color,
    ensures
        title_line(b, entries, logs, v).len() <= v.width,
        tab_line(b, entries, v).len() <= v.width,
        screen_line(t, row, b.open == 0, grep, label_w, v).len() <= v.width + 1,
{
    reveal_strlit("\n");
}

/// A line of a log on the screen.
fn show_log_line(line: &str, sys: bool, grep: Option<(&str, bool)>, width: usize, on: bool) -> (r:
    String)
    ensures
        r@ == log_line(line@, sys, follow::opt_pattern(grep), width as nat, on),
{
    let cut = fmt::ellipsize(line, width);
    let pal = Pal { on };
    if sys {
        pal.dim(cut.as_str())
    } else {
        match grep {
            Some(g) => find::highlight(pal, cut.as_str(), g.0, g.1),
            None => cut,
        }
    }
}

/// A line on the screen.
fn show_line(
    t: &Target,
    row: &Row,
    all: bool,
    grep: Option<(&str, bool)>,
    label_w: usize,
    view: &Viewport,
) -> (r: String)
    ensures
        r@ == screen_line(*t, row@, all, follow::opt_pattern(grep), label_w as nat, *view),
{
    if all {
        let mut label = "[".to_owned();
        label.append(fmt::pad(t.label.as_str(), label_w).as_str());
        label.append("] ");
        let tag = fmt::ellipsize(label.as_str(), view.width);
        let n: usize = tag.as_str().unicode_len();
        let mut s = view.c(t.color, tag.as_str());
        s.append(
            show_log_line(row.line.as_str(), row.sys, grep, view.width - n, view.color).as_str(),
        );
        s.append("\n");
        s
    } else {
        let mut s = show_log_line(row.line.as_str(), row.sys, grep, view.width, view.color);
        s.append("\n");
        s
    }
}

/// Do the lines of a page belong to logs that there are?
pub open spec fn rows_fit(p: PageView, logs: int) -> bool {
    forall|i: int| 0 <= i < p.rows.len() ==> 0 <= (#[trigger] p.rows[i]).target < logs
}

/// Where the lines of all pages belong to logs that there are, and so does a line that comes,
/// they still do.
pub proof fn law_rows_fit(b: BookView, jidx: int, row: RowView, logs: int)
    requires
        b.wf(),
        0 <= jidx < b.pages.len() - 1,
        0 <= row.target < logs,
        forall|i: int| 0 <= i < b.pages.len() ==> rows_fit(#[trigger] b.pages[i], logs),
    ensures
        forall|i: int|
            0 <= i < b.pages.len() ==> rows_fit(
                #[trigger] with_line(b, jidx, row).pages[i],
                logs,
            ),
{
    assert(rows_fit(with_row(b.pages[0], row), logs));
    assert(rows_fit(with_row(b.pages[jidx + 1], row), logs));
}

/// The lines of a page that are on the screen.
fn show_lines(
    p: &Page,
    from: usize,
    to: usize,
    targets: &Vec<Target>,
    all: bool,
    grep: Option<(&str, bool)>,
    label_w: usize,
    view: &Viewport,
) -> (r: String)
    requires
        from <= to <= p.rows@.len(),
        rows_fit(p@, targets@.len() as int),
    ensures
        r@ == screen_lines(
            row_views(p.rows@).subrange(from as int, to as int),
            targets@,
            all,
            follow::opt_pattern(grep),
            label_w as nat,
            *view,
        ),
{
    let ghost rows = row_views(p.rows@).subrange(from as int, to as int);
    let mut out = String::new();
    let mut i: usize = from;
    assert(rows.take(0).len() == 0);
    while i < to
        invariant
            from <= i <= to <= p.rows@.len(),
            rows_fit(p@, targets@.len() as int),
            rows == row_views(p.rows@).subrange(from as int, to as int),
            out@ == screen_lines(
                rows.take(i - from),
                targets@,
                all,
                follow::opt_pattern(grep),
                label_w as nat,
                *view,
            ),
        decreases to - i,
    {
        let ghost k: int = i - from;
        assert(rows.take(k + 1).drop_last() == rows.take(k));
        assert(rows.take(k + 1).last() == p.rows@[i as int]@);
        assert(p@.rows[i as int] == p.rows@[i as int]@);
        let row = &p.rows[i];
        out.append(show_line(&targets[row.target], row, all, grep, label_w, view).as_str());
        i += 1;
    }
    assert(rows.take(to - from) == rows);
    out
}

/// The lines of the open page, and blank ones up to the height; or else that its job has no logs.
fn show_body(
    b: &Book,
    targets: &Vec<Target>,
    grep: Option<(&str, bool)>,
    height: usize,
    view: &Viewport,
) -> (r: String)
    requires
        b@.wf(),
        rows_fit(b@.pages[b@.open], targets@.len() as int),
    ensures
        r@ == body_text(b@, targets@, follow::opt_pattern(grep), height as nat, *view),
{
    assert(b@.pages[b.open as int] == b.pages@[b.open as int]@);
    let mut blank = String::new();
    if b.open > 0 && height > 0 && !follow::any_log(targets, b.open - 1) {
        let mut s = view.dim(
            fmt::ellipsize(" (no log files for this job)", view.width).as_str(),
        );
        text::push_repeated(&mut blank, '\n', height);
        s.append(blank.as_str());
        return s;
    }
    let page = &b.pages[b.open];
    let (from, to) = page.span(height);
    let label_w: usize = logs::label_width(targets);
    let mut s = show_lines(page, from, to, targets, b.open == 0, grep, label_w, view);
    text::push_repeated(&mut blank, '\n', height - (to - from));
    s.append(blank.as_str());
    s
}

/// The screen, `height` lines of which are for the log.
pub fn show_screen(
    b: &Book,
    entries: &Vec<Entry>,
    targets: &Vec<Target>,
    grep: Option<(&str, bool)>,
    height: usize,
    view: &Viewport,
) -> (r: String)
    requires
        b@.wf(),
        b@.pages.len() == entries@.len() + 1,
        rows_fit(b@.pages[b@.open], targets@.len() as int),
    ensures
        r@ == screen_text(b@, entries@, targets@, follow::opt_pattern(grep), height as nat, *view),
{
    let mut s = "\x1b[H\x1b[J".to_owned();
    s.append(show_title(b, entries, targets.len(), view).as_str());
    s.append("\n");
    s.append(show_body(b, targets, grep, height, view).as_str());
    s.append(show_tabs(b, entries, view).as_str());
    s
}

// ---------------------------------------------------------------------------
// the picker
// ---------------------------------------------------------------------------

/// What a key does in the picker.
pub enum Pick {
    /// Ends.
    Quit,
    /// Moves the cursor.
    Cursor(usize),
    /// Opens the page of a job, or of all.
    Open(Option<usize>),
    /// Nothing.
    Ignore,
}

/// What a key does in the picker, with the cursor on a line of the index: `j` and `k` move the
/// cursor down and up; Enter opens the page of the line's job; a digit that of the line with
/// that number; `f` opens the page of all; `q`, Ctrl-C, Ctrl-D and Escape end.
pub open spec fn picked(key: u8, cursor: int, targets: Seq<TargetView>) -> Pick {
    if key == 0x71 || key == 3 || key == 4 || key == 27 {
        Pick::Quit
    } else if key == 0x6a {
        Pick::Cursor(fmt::least(cursor + 1, targets.len() - 1) as usize)
    } else if key == 0x6b {
        Pick::Cursor(
            (if cursor > 0 {
                cursor - 1
            } else {
                0
            }) as usize,
        )
    } else if key == 10 || key == 13 {
        Pick::Open(Some(targets[cursor].jidx as usize))
    } else if 0x31 <= key <= 0x39 {
        if key - 0x31 < targets.len() {
            Pick::Open(Some(targets[key - 0x31].jidx as usize))
        } else {
            Pick::Ignore
        }
    } else if key == 0x66 {
        Pick::Open(None)
    } else {
        Pick::Ignore
    }
}

/// What a key does in the picker.
pub fn pick(key: u8, cursor: usize, targets: &Vec<Target>) -> (r: Pick)
    requires
        cursor < targets@.len(),
    ensures
        r == picked(key, cursor as int, logs::target_views(targets@)),
{
    if key == 0x71 || key == 3 || key == 4 || key == 27 {
        Pick::Quit
    } else if key == 0x6a {
        let last: usize = targets.len() - 1;
        Pick::Cursor(
            if cursor < last {
                cursor + 1
            } else {
                last
            },
        )
    } else if key == 0x6b {
        Pick::Cursor(cursor.saturating_sub(1))
    } else if key == 10 || key == 13 {
        assert(logs::target_views(targets@)[cursor as int] == targets@[cursor as int]@);
        Pick::Open(Some(targets[cursor].jidx))
    } else if 0x31 <= key && key <= 0x39 {
        let i: usize = (key - 0x31) as usize;
        if i < targets.len() {
            assert(logs::target_views(targets@)[i as int] == targets@[i as int]@);
            Pick::Open(Some(targets[i].jidx))
        } else {
            Pick::Ignore
        }
    } else if key == 0x66 {
        Pick::Open(None)
    } else {
        Pick::Ignore
    }
}

/// The cursor stays on the index; and `k` undoes `j` above the last line.
pub proof fn law_cursor(key: u8, cursor: int, targets: Seq<TargetView>)
    requires
        0 <= cursor < targets.len() <= usize::MAX,
    ensures
        picked(key, cursor, targets) matches Pick::Cursor(c) ==> c < targets.len(),
        cursor + 1 < targets.len() ==> (picked(0x6a, cursor, targets) matches Pick::Cursor(c)
            && picked(0x6b, c as int, targets) == Pick::Cursor(cursor as usize)),
{
}

/// The first line of the index that is shown where `height` lines fit: the cursor is on one of
/// those behind it.
pub open spec fn first_shown(cursor: int, height: int) -> int {
    if cursor < height {
        0
    } else {
        cursor - height + 1
    }
}

/// The picker's screen: the line above the index, `height` lines of the index, and the keys.
pub open spec fn picker_text(
    targets: Seq<Target>,
    files: Seq<Option<FileInfo>>,
    cursor: usize,
    width: int,
    height: int,
    on: bool,
) -> Seq<char> {
    let w = logs::index_widths(logs::target_views(targets), width);
    let from = first_shown(cursor as int, height);
    let to = fmt::least(targets.len() as int, from + height);
    "\x1b[H\x1b[J"@ + logs::index_header(w, on) + logs::index_rows(
        targets,
        files,
        from as nat,
        to as nat,
        Some(cursor),
        w,
        on,
    ) + paint::dimmed(
        on,
        fmt::ellipsized(" j/k move · Enter open · 1-9 open · f all · q quit"@, width as nat),
    )
}

/// The cursor is on a line that is shown.
pub proof fn law_cursor_shown(cursor: int, len: int, height: int)
    requires
        0 <= cursor < len,
        height > 0,
    ensures
        first_shown(cursor, height) <= cursor < fmt::least(len, first_shown(cursor, height) + height),
{
}

/// The picker's screen.
pub fn show_picker(
    targets: &Vec<Target>,
    files: &Vec<Option<FileInfo>>,
    cursor: usize,
    width: usize,
    height: usize,
    pal: Pal,
) -> (r: String)
    requires
        files@.len() == targets@.len(),
        cursor < targets@.len(),
        height > 0,
    ensures
        r@ == picker_text(targets@, files@, cursor, width as int, height as int, pal.on),
{
    let w = logs::widths(targets, width);
    let from: usize = if cursor < height {
        0
    } else {
        cursor - height + 1
    };
    let to: usize = if targets.len() - from < height {
        targets.len()
    } else {
        from + height
    };
    let mut s = "\x1b[H\x1b[J".to_owned();
    s.append(logs::show_index_header(&w, pal).as_str());
    s.append(logs::show_index_rows(targets, files, from, to, Some(cursor), &w, pal).as_str());
    s.append(
        pal.dim(
            fmt::ellipsize(" j/k move · Enter open · 1-9 open · f all · q quit", width).as_str(),
        ).as_str(),
    );
    s
}

} // verus!
