//! Following logs as they grow.
//!
//! A stream says what it wants to read next; what was read is handed back to it.

use crate::logs::Target;
use crate::paint::Pal;
use crate::pbs::Job;
use crate::digits;
use crate::find;
use crate::fmt;
use crate::logs;
use crate::logtext;
use crate::paint;
use crate::search;
use crate::text;
use vstd::prelude::*;

verus! {

// ---------------------------------------------------------------------------
// lines of bytes
// ---------------------------------------------------------------------------

/// The number of bytes before the first line feed.
pub open spec fn line_len(b: Seq<u8>) -> int
    decreases b.len(),
{
    if b.len() == 0 || b[0] == 0x0a {
        0
    } else {
        1 + line_len(b.skip(1))
    }
}

/// The bytes between the line feeds. The last segment is what follows the last line feed.
pub open spec fn segments(b: Seq<u8>) -> Seq<Seq<u8>>
    decreases b.len(),
    via segments_decreases
{
    let n = line_len(b);
    if n >= b.len() {
        seq![b]
    } else {
        seq![b.take(n)] + segments(b.skip(n + 1))
    }
}

#[via_fn]
proof fn segments_decreases(b: Seq<u8>) {
    lemma_line_len(b);
}

/// `line_len` counts the bytes before the first line feed.
pub proof fn lemma_line_len(b: Seq<u8>)
    ensures
        0 <= line_len(b) <= b.len(),
        line_len(b) < b.len() ==> b[line_len(b)] == 0x0a,
        forall|k: int| 0 <= k < line_len(b) ==> b[k] != 0x0a,
    decreases b.len(),
{
    if b.len() > 0 && b[0] != 0x0a {
        lemma_line_len(b.skip(1));
        assert forall|k: int| 0 <= k < line_len(b) implies b[k] != 0x0a by {
            if k > 0 {
                assert(b.skip(1)[k - 1] == b[k]);
            }
        }
    }
}

/// The lines that are complete.
pub open spec fn complete(b: Seq<u8>) -> Seq<Seq<u8>> {
    segments(b).drop_last()
}

/// What follows the last complete line.
pub open spec fn unfinished(b: Seq<u8>) -> Seq<u8> {
    segments(b).last()
}

/// What is unfinished holds no line feed.
pub proof fn law_unfinished(b: Seq<u8>)
    ensures
        segments(b).len() > 0,
        forall|k: int| 0 <= k < unfinished(b).len() ==> unfinished(b)[k] != 0x0a,
    decreases b.len(),
{
    lemma_line_len(b);
    let n = line_len(b);
    if n < b.len() {
        law_unfinished(b.skip(n + 1));
        assert(unfinished(b) == unfinished(b.skip(n + 1)));
    } else {
        assert(unfinished(b) == b);
    }
}

/// The first line of a text with one.
proof fn lemma_line_len_append(x: Seq<u8>, y: Seq<u8>)
    ensures
        line_len(x) < x.len() ==> line_len(x + y) == line_len(x),
    decreases x.len(),
{
    if x.len() > 0 && x[0] != 0x0a {
        assert((x + y).skip(1) == x.skip(1) + y);
        assert((x + y)[0] == x[0]);
        lemma_line_len_append(x.skip(1), y);
    } else if x.len() > 0 {
        assert((x + y)[0] == x[0]);
    }
}

/// It does not matter how a log is cut into chunks: the lines of the first chunk, and then
/// those of what it leaves unfinished with the second, are the lines of both.
pub proof fn law_chunks(a: Seq<u8>, b: Seq<u8>)
    ensures
        complete(a + b) == complete(a) + complete(unfinished(a) + b),
        unfinished(a + b) == unfinished(unfinished(a) + b),
    decreases a.len(),
{
    lemma_line_len(a);
    law_unfinished(a);
    law_unfinished(a + b);
    let n = line_len(a);
    if n < a.len() {
        let rest = a.skip(n + 1);
        lemma_line_len_append(a, b);
        law_unfinished(rest);
        law_unfinished(rest + b);
        assert((a + b).take(n) == a.take(n));
        assert((a + b).skip(n + 1) == rest + b);
        law_chunks(rest, b);
        law_unfinished(unfinished(rest) + b);
        assert(segments(a) == seq![a.take(n)] + segments(rest));
        assert(segments(a + b) == seq![a.take(n)] + segments(rest + b));
        assert(unfinished(a) == unfinished(rest));
        assert(complete(a) == seq![a.take(n)] + complete(rest));
        assert(complete(a + b) == seq![a.take(n)] + complete(rest + b));
        assert(complete(a + b) == complete(a) + complete(unfinished(a) + b));
    } else {
        assert(segments(a) == seq![a]);
        assert(complete(a) == Seq::<Seq<u8>>::empty());
        assert(complete(a + b) == complete(a) + complete(unfinished(a) + b));
    }
}

/// The views of byte strings.
pub open spec fn byte_views(v: Seq<Vec<u8>>) -> Seq<Seq<u8>> {
    v.map_values(|b: Vec<u8>| b@)
}

/// The bytes between the line feeds.
pub fn split_lines(b: &[u8]) -> (r: Vec<Vec<u8>>)
    ensures
        r@.len() > 0,
        byte_views(r@) == segments(b@),
{
    let mut out: Vec<Vec<u8>> = Vec::new();
    let mut from: usize = 0;
    let mut i: usize = 0;
    let total: usize = b.len();
    assert(b@.skip(0) == b@);
    assert(byte_views(out@) + segments(b@) == segments(b@));
    while i < b.len()
        invariant
            from <= i <= b@.len(),
            total == b@.len(),
            forall|k: int| from <= k < i ==> b@[k] != 0x0a,
            byte_views(out@) + segments(b@.skip(from as int)) == segments(b@),
        decreases b@.len() - i,
    {
        if b[i] == 0x0a {
            let ghost t = b@.skip(from as int);
            let ghost done = byte_views(out@);
            let line = logtext::bytes_of(b, from, i);
            proof {
                lemma_line_len_is(t, i - from);
                assert(t.take(i - from) == line@);
                assert(t.skip(i - from + 1) == b@.skip(i + 1));
                assert(segments(t) == seq![line@] + segments(b@.skip(i + 1)));
            }
            out.push(line);
            assert(byte_views(out@) == done.push(line@));
            assert(done.push(line@) + segments(b@.skip(i + 1)) == done + segments(t));
            from = i + 1;
        }
        i += 1;
    }
    let ghost t = b@.skip(from as int);
    let ghost done = byte_views(out@);
    let last = logtext::bytes_of(b, from, total);
    proof {
        assert(t == last@);
        lemma_line_len_is(t, t.len() as int);
        assert(segments(t) == seq![last@]);
    }
    out.push(last);
    assert(byte_views(out@) == done.push(last@));
    assert(done.push(last@) == done + seq![last@]);
    out
}

/// The index of the first line feed is the number of bytes before it.
proof fn lemma_line_len_is(b: Seq<u8>, n: int)
    requires
        0 <= n <= b.len(),
        n < b.len() ==> b[n] == 0x0a,
        forall|k: int| 0 <= k < n ==> b[k] != 0x0a,
    ensures
        line_len(b) == n,
{
    lemma_line_len(b);
}

// ---------------------------------------------------------------------------
// streams
// ---------------------------------------------------------------------------

/// How far back the initial backlog looks.
pub const TAIL_SCAN: u64 = 0x1_0000;

/// The most that is read of a log at once.
pub const MAX_READ: u64 = 0x20_0000;

/// How long a rewritten line stays unseen, in nanoseconds.
pub const PARTIAL_NANOS: u128 = 5_000_000_000;

/// A log that is followed.
pub struct Stream {
    /// The number of bytes read.
    pub offset: u64,
    /// What follows the last complete line.
    pub buf: Vec<u8>,
    pub opened: bool,
    pub wait_announced: bool,
    /// When something was last shown of it, in nanoseconds.
    pub last_partial: u128,
}

/// A log that is followed.
pub struct StreamView {
    pub offset: int,
    pub buf: Seq<u8>,
    pub opened: bool,
    pub wait_announced: bool,
    pub last_partial: int,
}

impl View for Stream {
    type V = StreamView;

    open spec fn view(&self) -> StreamView {
        StreamView {
            offset: self.offset as int,
            buf: self.buf@,
            opened: self.opened,
            wait_announced: self.wait_announced,
            last_partial: self.last_partial as int,
        }
    }
}

/// What a stream wants next.
pub enum Ask {
    /// Nothing until the next round.
    Done,
    /// The end of the log: `len` bytes from `start` on.
    Tail { start: u64, len: u64 },
    /// What is new: at most `len` bytes from `start` on.
    More { start: u64, len: u64 },
    /// A look at what it has.
    Settle,
}

/// A stream, once the size of its log is known (`None`: there is no log); with what it has
/// to say, and what it wants next.
pub open spec fn looked(s: StreamView, size: Option<u64>) -> (StreamView, Option<Seq<char>>, Ask) {
    match size {
        None => if !s.wait_announced && !s.opened {
            (
                StreamView { wait_announced: true, ..s },
                Some(
                    "waiting for log file (job not started, or output spooled without #PBS -k oed)"@,
                ),
                Ask::Done,
            )
        } else {
            (s, None, Ask::Done)
        },
        Some(n) => if !s.opened {
            let start = (if n > TAIL_SCAN {
                n - TAIL_SCAN
            } else {
                0
            }) as u64;
            (
                StreamView { opened: true, offset: n as int, ..s },
                if s.wait_announced {
                    Some("log file appeared"@)
                } else {
                    None
                },
                Ask::Tail { start, len: (n - start) as u64 },
            )
        } else {
            let (t, said) = if n < s.offset {
                (
                    StreamView { offset: 0, buf: Seq::empty(), ..s },
                    Some("log truncated — following from the start"@),
                )
            } else {
                (s, None)
            };
            let fresh = n - t.offset;
            if fresh > 0 {
                (
                    t,
                    said,
                    Ask::More {
                        start: t.offset as u64,
                        len: (if fresh > MAX_READ {
                            MAX_READ as int
                        } else {
                            fresh
                        }) as u64,
                    },
                )
            } else {
                (t, said, Ask::Settle)
            }
        },
    }
}

/// A log that is missing is announced once, and not at all once it was there.
pub proof fn law_announced_once(s: StreamView)
    ensures
        looked(looked(s, None).0, None).1 is None,
        s.opened ==> looked(s, None).1 is None,
        forall|n: u64| #[trigger] looked(s, Some(n)).0.opened,
{
}

/// A stream asks for no more than the log has, and for no more than it may at once.
pub proof fn law_asks_for_what_is_there(s: StreamView, n: u64)
    requires
        0 <= s.offset <= u64::MAX,
    ensures
        match looked(s, Some(n)).2 {
            Ask::Tail { start, len } => start + len == n && len <= TAIL_SCAN,
            Ask::More { start, len } => start == looked(s, Some(n)).0.offset && start + len <= n && 0
                < len <= MAX_READ,
            Ask::Settle => looked(s, Some(n)).0.offset == n,
            Ask::Done => false,
        },
{
}

/// What lines look like.
pub open spec fn displays(lines: Seq<Seq<u8>>) -> Seq<Seq<char>> {
    lines.map_values(|l: Seq<u8>| logtext::displayed(l))
}

/// The last `n` of the lines.
pub open spec fn last_lines(lines: Seq<Seq<u8>>, n: int) -> Seq<Seq<u8>> {
    if lines.len() > n {
        lines.skip(lines.len() - n)
    } else {
        lines
    }
}

/// The lines of the backlog: the complete ones, without the first where the log was cut
/// there.
pub open spec fn backlog(chunk: Seq<u8>, start: u64) -> Seq<Seq<u8>> {
    if start > 0 && complete(chunk).len() > 0 {
        complete(chunk).skip(1)
    } else {
        complete(chunk)
    }
}

/// The view of what a stream says.
pub open spec fn opt_said(s: Option<&'static str>) -> Option<Seq<char>> {
    match s {
        Some(t) => Some(t@),
        None => None,
    }
}

impl Stream {
    /// A stream that has read nothing.
    pub fn new(now: u128) -> (r: Stream)
        ensures
            r@ == (StreamView {
                offset: 0,
                buf: Seq::empty(),
                opened: false,
                wait_announced: false,
                last_partial: now as int,
            }),
    {
        Stream {
            offset: 0,
            buf: Vec::new(),
            opened: false,
            wait_announced: false,
            last_partial: now,
        }
    }

    /// Looks at the size of the log (`None`: there is no log); says what there is to say, and
    /// what it wants next.
    pub fn look(&mut self, size: Option<u64>) -> (r: (Option<&'static str>, Ask))
        ensures
            (final(self)@, opt_said(r.0), r.1) == looked(old(self)@, size),
    {
        match size {
            None => {
                if !self.wait_announced && !self.opened {
                    self.wait_announced = true;
                    (
                        Some(
                            "waiting for log file (job not started, or output spooled without #PBS -k oed)",
                        ),
                        Ask::Done,
                    )
                } else {
                    (None, Ask::Done)
                }
            },
            Some(n) => {
                if !self.opened {
                    self.opened = true;
                    self.offset = n;
                    let start: u64 = n.saturating_sub(TAIL_SCAN);
                    let said = if self.wait_announced {
                        Some("log file appeared")
                    } else {
                        None
                    };
                    return (said, Ask::Tail { start, len: n - start });
                }
                let mut said: Option<&'static str> = None;
                if n < self.offset {
                    self.offset = 0;
                    self.buf = Vec::new();
                    said = Some("log truncated — following from the start");
                }
                let fresh: u64 = n - self.offset;
                if fresh > 0 {
                    let len: u64 = if fresh > MAX_READ {
                        MAX_READ
                    } else {
                        fresh
                    };
                    (said, Ask::More { start: self.offset, len })
                } else {
                    (said, Ask::Settle)
                }
            },
        }
    }

    /// Takes the end of the log, from `start` on; shows the last `tail_n` lines of it.
    pub fn take_tail(&mut self, chunk: &[u8], start: u64, tail_n: usize) -> (r: Vec<String>)
        ensures
            final(self)@ == (StreamView { buf: unfinished(chunk@), ..old(self)@ }),
            text::texts(r@) == displays(last_lines(backlog(chunk@, start), tail_n as int)),
    {
        let mut segs = split_lines(chunk);
        let ghost all = segments(chunk@);
        let count: usize = segs.len() - 1;
        let ghost lines = complete(chunk@);
        assert(byte_views(segs@)[count as int] == segs@[count as int]@);
        self.buf = segs.swap_remove(count);
        assert(self.buf@ == unfinished(chunk@));
        let skip: usize = if start > 0 && count > 0 {
            1
        } else {
            0
        };
        let from: usize = if count - skip > tail_n {
            count - tail_n
        } else {
            skip
        };
        let ghost wanted = last_lines(backlog(chunk@, start), tail_n as int);
        assert(wanted == lines.skip(from as int));
        assert forall|k: int| 0 <= k < count implies segs@[k]@ == lines[k] by {
            assert(all[k] == lines[k]);
            assert(byte_views(segs@)[k] == segs@[k]@);
        }
        let mut out: Vec<String> = Vec::new();
        let mut i: usize = from;
        while i < count
            invariant
                from <= i <= count,
                count == segs@.len(),
                lines.len() == count,
                forall|k: int| 0 <= k < count ==> #[trigger] segs@[k]@ == lines[k],
                wanted == lines.skip(from as int),
                text::texts(out@) == displays(wanted.take(i - from)),
            decreases count - i,
        {
            let ghost done = text::texts(out@);
            let t = logtext::display_bytes(segs[i].as_slice());
            out.push(t);
            assert(wanted.take(i - from + 1) == wanted.take(i - from).push(lines[i as int]));
            assert(text::texts(out@) == done.push(t@));
            assert(displays(wanted.take(i - from + 1)) == displays(wanted.take(i - from)).push(t@));
            i += 1;
        }
        assert(wanted.take(count - from) == wanted);
        out
    }

    /// Takes what is new in the log; shows the lines that are complete now.
    pub fn take_more(&mut self, chunk: &[u8], now: u128) -> (r: Vec<String>)
        requires
            old(self).offset + chunk@.len() <= u64::MAX,
        ensures
            ({
                let all = old(self)@.buf + chunk@;
                &&& text::texts(r@) == displays(complete(all))
                &&& final(self)@ == (StreamView {
                    offset: old(self)@.offset + chunk@.len(),
                    buf: unfinished(all),
                    last_partial: if complete(all).len() > 0 {
                        now as int
                    } else {
                        old(self)@.last_partial
                    },
                    ..old(self)@
                })
            }),
    {
        let ghost all = self.buf@ + chunk@;
        self.offset += chunk.len() as u64;
        let mut bytes: Vec<u8> = Vec::new();
        std::mem::swap(&mut bytes, &mut self.buf);
        let mut k: usize = 0;
        let ghost was = bytes@;
        while k < chunk.len()
            invariant
                k <= chunk@.len(),
                bytes@ == was + chunk@.take(k as int),
            decreases chunk@.len() - k,
        {
            bytes.push(chunk[k]);
            assert(chunk@.take(k + 1) == chunk@.take(k as int).push(chunk@[k as int]));
            k += 1;
        }
        assert(chunk@.take(k as int) == chunk@);
        let mut segs = split_lines(bytes.as_slice());
        let count: usize = segs.len() - 1;
        let ghost lines = complete(all);
        assert(byte_views(segs@)[count as int] == segs@[count as int]@);
        self.buf = segs.swap_remove(count);
        assert(self.buf@ == unfinished(all));
        assert forall|k: int| 0 <= k < count implies segs@[k]@ == lines[k] by {
            assert(segments(all)[k] == lines[k]);
            assert(byte_views(segs@)[k] == segs@[k]@);
        }
        if count > 0 {
            self.last_partial = now;
        }
        let mut out: Vec<String> = Vec::new();
        let mut i: usize = 0;
        assert(text::texts(out@) == displays(lines.take(0)));
        while i < count
            invariant
                i <= count,
                count == segs@.len(),
                lines.len() == count,
                forall|k: int| 0 <= k < count ==> #[trigger] segs@[k]@ == lines[k],
                text::texts(out@) == displays(lines.take(i as int)),
            decreases count - i,
        {
            let ghost done = text::texts(out@);
            let t = logtext::display_bytes(segs[i].as_slice());
            out.push(t);
            assert(lines.take(i + 1) == lines.take(i as int).push(lines[i as int]));
            assert(text::texts(out@) == done.push(t@));
            assert(displays(lines.take(i + 1)) == displays(lines.take(i as int)).push(t@));
            i += 1;
        }
        assert(lines.take(count as int) == lines);
        out
    }

    /// Shows what a line looks like that is rewritten all the time, once nothing was shown for
    /// a while.
    pub fn settle(&mut self, now: u128) -> (r: Option<String>)
        ensures
            ({
                let s = old(self)@;
                let shown = logtext::displayed(s.buf);
                if s.buf.contains(0x0d) && now - s.last_partial >= PARTIAL_NANOS {
                    &&& final(self)@ == (StreamView {
                        buf: Seq::empty(),
                        last_partial: now as int,
                        ..s
                    })
                    &&& match r {
                        Some(t) => t@ == shown && text::trimmed(shown).len() > 0,
                        None => text::trimmed(shown).len() == 0,
                    }
                } else {
                    final(self)@ == s && r is None
                }
            }),
    {
        // A \r-rewriting progress bar may not emit \n for minutes; surface its
        // current state as a snapshot line every few seconds.
        if has_cr(&self.buf) && now >= self.last_partial && now - self.last_partial
            >= PARTIAL_NANOS {
            let shown = logtext::display_bytes(self.buf.as_slice());
            self.buf = Vec::new();
            self.last_partial = now;
            if text::trim(shown.as_str()).as_str().is_empty() {
                None
            } else {
                Some(shown)
            }
        } else {
            None
        }
    }
}

/// Is there a carriage return?
fn has_cr(b: &Vec<u8>) -> (r: bool)
    ensures
        r == b@.contains(0x0d),
{
    let mut i: usize = 0;
    while i < b.len()
        invariant
            i <= b@.len(),
            forall|k: int| 0 <= k < i ==> b@[k] != 0x0d,
        decreases b@.len() - i,
    {
        if b[i] == 0x0d {
            assert(b@[i as int] == 0x0d);
            return true;
        }
        i += 1;
    }
    false
}

// ---------------------------------------------------------------------------
// lines on the screen
// ---------------------------------------------------------------------------

/// The number of lines kept of a log that is not shown.
pub const RING: usize = 3000;

/// What becomes of a line.
pub enum Route {
    /// It is shown.
    Show,
    /// It is kept until its log is shown.
    Keep,
    /// Nothing.
    Skip,
}

/// What becomes of a line: where a pattern is given, lines of a log without it go; what is
/// not shown is kept, unless it is a status line.
pub open spec fn routed(
    line: Seq<char>,
    sys: bool,
    visible: bool,
    grep: Option<(Seq<char>, bool)>,
) -> Route {
    if !sys && (grep matches Some(g) && find::found_in(line, g.0, g.1) is None) {
        Route::Skip
    } else if visible {
        Route::Show
    } else if !sys {
        Route::Keep
    } else {
        Route::Skip
    }
}

/// What becomes of a line.
pub fn route(line: &str, sys: bool, visible: bool, grep: Option<(&str, bool)>) -> (r: Route)
    ensures
        r == routed(line@, sys, visible, opt_pattern(grep)),
{
    if !sys {
        match grep {
            Some(g) => {
                if !search::has_match(line, g.0, g.1) {
                    return Route::Skip;
                }
            },
            None => {},
        }
    }
    if visible {
        Route::Show
    } else if !sys {
        Route::Keep
    } else {
        Route::Skip
    }
}

/// The last lines of a log that are kept.
pub open spec fn kept(lines: Seq<Seq<char>>) -> Seq<Seq<char>> {
    if lines.len() > RING {
        lines.skip(1)
    } else {
        lines
    }
}

/// No more lines are kept than there is room for, and the last one is among them.
pub proof fn law_ring(lines: Seq<Seq<char>>, line: Seq<char>)
    requires
        lines.len() <= RING,
    ensures
        kept(lines.push(line)).len() <= RING,
        kept(lines.push(line)).last() == line,
{
}

/// Keeps a line.
pub fn keep(ring: &mut Vec<String>, line: String)
    ensures
        text::texts(final(ring)@) == kept(text::texts(old(ring)@).push(line@)),
{
    let ghost more = text::texts(ring@).push(line@);
    ring.push(line);
    assert(text::texts(ring@) == more);
    if ring.len() > RING {
        ring.remove(0);
        assert(text::texts(ring@) == more.skip(1));
    }
}

/// Is a log shown? All are, unless one job has the focus.
pub fn is_visible(solo: Option<usize>, jidx: usize) -> (r: bool)
    ensures
        r == match solo {
            Some(j) => j == jidx,
            None => true,
        },
{
    match solo {
        Some(j) => j == jidx,
        None => true,
    }
}

/// How lines are shown.
pub struct Screen {
    pub pal: Pal,
    /// Are lines prefixed with the label of their log?
    pub prefix_on: bool,
    pub label_w: usize,
}

/// A line of a log on the screen: a status line is faint, and a pattern is marked.
pub open spec fn line_text(
    sc: Screen,
    t: Target,
    line: Seq<char>,
    sys: bool,
    grep: Option<(Seq<char>, bool)>,
) -> Seq<char> {
    let on = sc.pal.on;
    let body = if sys {
        paint::dimmed(on, line)
    } else {
        match grep {
            Some(g) => find::highlighted(on, line, g.0, g.1),
            None => line,
        }
    };
    if sc.prefix_on {
        paint::painted(on, t.color@, "["@ + fmt::padded(t.label@, sc.label_w as nat) + "]"@) + " "@ + body
            + "\n"@
    } else {
        body + "\n"@
    }
}

/// A line of a log on the screen.
pub fn emit(sc: &Screen, t: &Target, line: &str, sys: bool, grep: Option<(&str, bool)>) -> (r:
    String)
    ensures
        r@ == line_text(*sc, *t, line@, sys, opt_pattern(grep)),
{
    let body = if sys {
        sc.pal.dim(line)
    } else {
        match grep {
            Some(g) => find::highlight(sc.pal, line, g.0, g.1),
            None => line.to_owned(),
        }
    };
    if sc.prefix_on {
        let mut label = "[".to_owned();
        label.append(fmt::pad(t.label.as_str(), sc.label_w).as_str());
        label.append("]");
        let mut s = sc.pal.c(t.color, label.as_str());
        s.append(" ");
        s.append(body.as_str());
        s.append("\n");
        s
    } else {
        let mut s = body;
        s.append("\n");
        s
    }
}

/// The view of a pattern, where there is one.
pub open spec fn opt_pattern(grep: Option<(&str, bool)>) -> Option<(Seq<char>, bool)> {
    match grep {
        Some(g) => Some((g.0@, g.1)),
        None => None,
    }
}

/// What becomes of a line of a log: the text to show, or nothing; the line may be kept.
pub fn deliver(
    sc: &Screen,
    t: &Target,
    line: String,
    sys: bool,
    visible: bool,
    grep: Option<(&str, bool)>,
    ring: &mut Vec<String>,
) -> (r: Option<String>)
    ensures
        match routed(line@, sys, visible, opt_pattern(grep)) {
            Route::Show => r matches Some(s) && s@ == line_text(
                *sc,
                *t,
                line@,
                sys,
                opt_pattern(grep),
            ) && text::texts(final(ring)@) == text::texts(old(ring)@),
            Route::Keep => r is None && text::texts(final(ring)@) == kept(
                text::texts(old(ring)@).push(line@),
            ),
            Route::Skip => r is None && text::texts(final(ring)@) == text::texts(old(ring)@),
        },
{
    match route(line.as_str(), sys, visible, grep) {
        Route::Show => Some(emit(sc, t, line.as_str(), sys, grep)),
        Route::Keep => {
            keep(ring, line);
            None
        },
        Route::Skip => None,
    }
}

/// A line between logs.
pub open spec fn banner_text(on: bool, txt: Seq<char>) -> Seq<char> {
    " "@ + paint::dimmed(on, "── "@ + txt + " ──"@) + "\n"@
}

/// A line between logs.
pub fn banner(pal: Pal, txt: &str) -> (r: String)
    ensures
        r@ == banner_text(pal.on, txt@),
{
    let mut s = "── ".to_owned();
    s.append(txt);
    s.append(" ──");
    let mut out = " ".to_owned();
    out.append(pal.dim(s.as_str()).as_str());
    out.append("\n");
    out
}

/// The number of jobs that have a key.
pub const KEYS: usize = 9;

/// The key of the job at index `i`.
pub open spec fn key_line(j: Job, i: int, on: bool) -> Seq<char> {
    "  "@ + paint::painted(on, "1"@, digits::decimal((i + 1) as nat)) + " "@ + paint::painted(on, logs::job_code(i), j.short_id@)
        + " "@ + paint::dimmed(on, fmt::ellipsized(j.name@, 48)) + "\n"@
}

/// The keys of the first `n` jobs.
pub open spec fn key_lines(jobs: Seq<&Job>, n: nat, on: bool) -> Seq<char>
    decreases n,
{
    if n == 0 {
        Seq::empty()
    } else {
        key_lines(jobs, (n - 1) as nat, on) + key_line(*jobs[n - 1], n - 1, on)
    }
}

/// The keys of the jobs.
pub open spec fn mapping_text(jobs: Seq<&Job>, on: bool) -> Seq<char> {
    if jobs.len() > KEYS {
        key_lines(jobs, KEYS as nat, on) + "  "@ + paint::dimmed(
            on,
            "(+"@ + digits::decimal((jobs.len() - KEYS) as nat) + " more — j/k cycles through all)"@,
        ) + "\n"@
    } else {
        key_lines(jobs, jobs.len(), on)
    }
}

/// The keys of the jobs.
pub fn print_mapping(jobs: &Vec<&Job>, pal: Pal) -> (r: String)
    ensures
        r@ == mapping_text(jobs@, pal.on),
{
    let n: usize = if jobs.len() > KEYS {
        KEYS
    } else {
        jobs.len()
    };
    let mut out = String::new();
    let mut i: usize = 0;
    assert(out@ == key_lines(jobs@, 0, pal.on));
    while i < n
        invariant
            i <= n <= jobs@.len(),
            n <= KEYS,
            out@ == key_lines(jobs@, i as nat, pal.on),
        decreases n - i,
    {
        out.append(show_key(jobs[i], i, pal).as_str());
        i += 1;
    }
    if jobs.len() > KEYS {
        let mut s = "(+".to_owned();
        s.append(digits::show((jobs.len() - KEYS) as u64).as_str());
        s.append(" more — j/k cycles through all)");
        out.append("  ");
        out.append(pal.dim(s.as_str()).as_str());
        out.append("\n");
    }
    out
}

/// The key of the job at index `i`.
fn show_key(j: &Job, i: usize, pal: Pal) -> (r: String)
    requires
        i < KEYS,
    ensures
        r@ == key_line(*j, i as int, pal.on),
{
    let mut s = "  ".to_owned();
    s.append(pal.c("1", digits::show((i + 1) as u64).as_str()).as_str());
    s.append(" ");
    s.append(pal.c(logs::job_color(i), j.short_id.as_str()).as_str());
    s.append(" ");
    s.append(pal.dim(fmt::ellipsize(j.name.as_str(), 48).as_str()).as_str());
    s.append("\n");
    s
}

/// The line above the logs.
pub open spec fn heading_text(n: nat, interactive: bool, on: bool) -> Seq<char> {
    " "@ + paint::dimmed(
        on,
        "following "@ + digits::decimal(n) + " log"@ + (if n == 1 {
            ""@
        } else {
            "s"@
        }) + " · "@ + (if interactive {
            "keys: 1-9 solo · a all · j/k cycle · l list · q quit"@
        } else {
            "Ctrl-C to stop"@
        }),
    ) + "\n"@
}

/// The line above the logs.
pub fn heading(n: usize, interactive: bool, pal: Pal) -> (r: String)
    ensures
        r@ == heading_text(n as nat, interactive, pal.on),
{
    let mut s = "following ".to_owned();
    s.append(digits::show(n as u64).as_str());
    s.append(" log");
    s.append(
        if n == 1 {
            ""
        } else {
            "s"
        },
    );
    s.append(" · ");
    s.append(
        if interactive {
            "keys: 1-9 solo · a all · j/k cycle · l list · q quit"
        } else {
            "Ctrl-C to stop"
        },
    );
    let mut out = " ".to_owned();
    out.append(pal.dim(s.as_str()).as_str());
    out.append("\n");
    out
}

// ---------------------------------------------------------------------------
// switching
// ---------------------------------------------------------------------------

/// The kept lines of a log, as they are shown.
pub open spec fn ring_text(sc: Screen, t: Target, ring: Seq<Seq<char>>) -> Seq<char>
    decreases ring.len(),
{
    if ring.len() == 0 {
        Seq::empty()
    } else {
        ring_text(sc, t, ring.drop_last()) + line_text(
            sc,
            t,
            paint::dimmed(sc.pal.on, ring.last()),
            true,
            None,
        )
    }
}

/// The kept lines of the first `n` logs, for those of job `j`.
pub open spec fn rings_text(
    sc: Screen,
    targets: Seq<Target>,
    rings: Seq<Vec<String>>,
    j: usize,
    n: nat,
) -> Seq<char>
    decreases n,
{
    if n == 0 {
        Seq::empty()
    } else {
        let before = rings_text(sc, targets, rings, j, (n - 1) as nat);
        if targets[n - 1].jidx == j {
            before + ring_text(sc, targets[n - 1], text::texts(rings[n - 1]@))
        } else {
            before
        }
    }
}

/// Has a job a log?
pub open spec fn has_log(targets: Seq<Target>, j: usize) -> bool {
    exists|i: int| 0 <= i < targets.len() && (#[trigger] targets[i]).jidx == j
}

/// Has a job a log?
pub(crate) fn any_log(targets: &Vec<Target>, j: usize) -> (r: bool)
    ensures
        r == has_log(targets@, j),
{
    let mut i: usize = 0;
    while i < targets.len()
        invariant
            i <= targets@.len(),
            forall|k: int| 0 <= k < i ==> (#[trigger] targets@[k]).jidx != j,
        decreases targets@.len() - i,
    {
        if targets[i].jidx == j {
            assert(targets@[i as int].jidx == j);
            return true;
        }
        i += 1;
    }
    false
}

/// What is shown when the focus goes to a job, or to all.
pub open spec fn switch_text(
    to: Option<usize>,
    jobs: Seq<&Job>,
    targets: Seq<Target>,
    rings: Seq<Vec<String>>,
    sc: Screen,
) -> Seq<char> {
    match to {
        None => banner_text(sc.pal.on, "all logs"@),
        Some(j) => {
            let head = banner_text(sc.pal.on, jobs[j as int].short_id@ + " "@ + jobs[j as int].name@);
            if has_log(targets, j) {
                head + rings_text(sc, targets, rings, j, targets.len())
            } else {
                head + " "@ + paint::dimmed(sc.pal.on, "(no log files for this job)"@) + "\n"@
            }
        },
    }
}

/// The kept lines of a log, as they are shown.
fn show_ring(sc: &Screen, t: &Target, ring: &Vec<String>) -> (r: String)
    ensures
        r@ == ring_text(*sc, *t, text::texts(ring@)),
{
    let ghost all = text::texts(ring@);
    let mut out = String::new();
    let mut i: usize = 0;
    assert(out@ == ring_text(*sc, *t, all.take(0)));
    while i < ring.len()
        invariant
            i <= ring@.len(),
            all == text::texts(ring@),
            out@ == ring_text(*sc, *t, all.take(i as int)),
        decreases ring@.len() - i,
    {
        assert(all.take(i + 1).drop_last() == all.take(i as int));
        out.append(emit(sc, t, sc.pal.dim(ring[i].as_str()).as_str(), true, None).as_str());
        i += 1;
    }
    assert(all.take(i as int) == all);
    out
}

/// Moves the focus to a job, or to all: shows what was kept of its logs, which is then kept
/// no longer.
pub fn switch(
    to: Option<usize>,
    jobs: &Vec<&Job>,
    targets: &Vec<Target>,
    rings: &mut Vec<Vec<String>>,
    sc: &Screen,
) -> (r: String)
    requires
        to matches Some(j) ==> j < jobs@.len(),
        old(rings)@.len() == targets@.len(),
    ensures
        r@ == switch_text(to, jobs@, targets@, old(rings)@, *sc),
        final(rings)@.len() == targets@.len(),
        forall|i: int|
            0 <= i < targets@.len() ==> (#[trigger] final(rings)@[i])@ == (if to
                == Some(targets@[i].jidx) {
                Seq::empty()
            } else {
                old(rings)@[i]@
            }),
{
    match to {
        None => banner(sc.pal, "all logs"),
        Some(j) => {
            let mut title = jobs[j].short_id.clone();
            title.append(" ");
            title.append(jobs[j].name.as_str());
            let mut out = banner(sc.pal, title.as_str());
            let mut shown = String::new();
            let mut any = false;
            let mut i: usize = 0;
            let ghost was = rings@;
            assert(shown@ == rings_text(*sc, targets@, was, j, 0));
            while i < targets.len()
                invariant
                    i <= targets@.len(),
                    was == old(rings)@,
                    rings@.len() == targets@.len(),
                    was.len() == targets@.len(),
                    any == (exists|k: int| 0 <= k < i && (#[trigger] targets@[k]).jidx == j),
                    forall|k: int| i <= k < targets@.len() ==> rings@[k] == was[k],
                    forall|k: int|
                        0 <= k < i ==> (#[trigger] rings@[k])@ == (if targets@[k].jidx == j {
                            Seq::empty()
                        } else {
                            was[k]@
                        }),
                    shown@ == rings_text(*sc, targets@, was, j, i as nat),
                decreases targets@.len() - i,
            {
                if targets[i].jidx == j {
                    assert(targets@[i as int].jidx == j);
                    any = true;
                    shown.append(show_ring(sc, &targets[i], &rings[i]).as_str());
                    rings.set(i, Vec::new());
                }
                i += 1;
            }
            if any {
                out.append(shown.as_str());
            } else {
                out.append(" ");
                out.append(sc.pal.dim("(no log files for this job)").as_str());
                out.append("\n");
            }
            out
        },
    }
}

// ---------------------------------------------------------------------------
// keys
// ---------------------------------------------------------------------------

/// How a page is scrolled.
pub enum Scroll {
    /// Up by half a page.
    HalfUp,
    /// Down by half a page.
    HalfDown,
    /// To the oldest line.
    Oldest,
    /// To the newest line, and along with it.
    Newest,
}

/// What a key does.
pub enum Action {
    /// Ends.
    Quit,
    /// Moves the focus to a job, or to all.
    Focus(Option<usize>),
    /// Scrolls.
    Scroll(Scroll),
    /// Lists the keys.
    Mapping,
    /// Nothing.
    Ignore,
}

/// What a key does, with `jobs` jobs of which one may have the focus: `q`, Ctrl-C, Ctrl-D and
/// Escape end; `a` and `0` show all; a digit shows a job; `j` and `k`, or `n` and `p`, go round;
/// `u`, `d`, `g` and `G` scroll; `l` lists.
pub open spec fn action(key: u8, jobs: int, solo: Option<usize>) -> Action {
    if key == 0x71 || key == 3 || key == 4 || key == 27 {
        Action::Quit
    } else if key == 0x61 || key == 0x30 {
        Action::Focus(None)
    } else if 0x31 <= key <= 0x39 {
        if key - 0x31 < jobs {
            Action::Focus(Some((key - 0x31) as usize))
        } else {
            Action::Ignore
        }
    } else if key == 0x6a || key == 0x6e {
        Action::Focus(
            Some(
                match solo {
                    Some(j) => ((j + 1) % jobs) as usize,
                    None => 0,
                },
            ),
        )
    } else if key == 0x6b || key == 0x70 {
        Action::Focus(
            Some(
                match solo {
                    Some(j) => ((j + jobs - 1) % jobs) as usize,
                    None => (jobs - 1) as usize,
                },
            ),
        )
    } else if key == 0x75 {
        Action::Scroll(Scroll::HalfUp)
    } else if key == 0x64 {
        Action::Scroll(Scroll::HalfDown)
    } else if key == 0x67 {
        Action::Scroll(Scroll::Oldest)
    } else if key == 0x47 {
        Action::Scroll(Scroll::Newest)
    } else if key == 0x6c {
        Action::Mapping
    } else {
        Action::Ignore
    }
}

/// What a key does.
pub fn press(key: u8, jobs: usize, solo: Option<usize>) -> (r: Action)
    requires
        jobs > 0,
        solo matches Some(j) ==> j < jobs,
    ensures
        r == action(key, jobs as int, solo),
{
    if key == 0x71 || key == 3 || key == 4 || key == 27 {
        Action::Quit
    } else if key == 0x61 || key == 0x30 {
        Action::Focus(None)
    } else if 0x31 <= key && key <= 0x39 {
        let j: usize = (key - 0x31) as usize;
        if j < jobs {
            Action::Focus(Some(j))
        } else {
            Action::Ignore
        }
    } else if key == 0x6a || key == 0x6e {
        let j: usize = match solo {
            Some(j) => if j + 1 < jobs {
                j + 1
            } else {
                0
            },
            None => 0,
        };
        proof {
            if let Some(s) = solo {
                lemma_round(s as int, jobs as int);
            }
        }
        Action::Focus(Some(j))
    } else if key == 0x6b || key == 0x70 {
        let j: usize = match solo {
            Some(j) => if j > 0 {
                j - 1
            } else {
                jobs - 1
            },
            None => jobs - 1,
        };
        proof {
            if let Some(s) = solo {
                lemma_round(s as int, jobs as int);
            }
        }
        Action::Focus(Some(j))
    } else if key == 0x75 {
        Action::Scroll(Scroll::HalfUp)
    } else if key == 0x64 {
        Action::Scroll(Scroll::HalfDown)
    } else if key == 0x67 {
        Action::Scroll(Scroll::Oldest)
    } else if key == 0x47 {
        Action::Scroll(Scroll::Newest)
    } else if key == 0x6c {
        Action::Mapping
    } else {
        Action::Ignore
    }
}

/// One step round and one step back, written out.
pub(crate) proof fn lemma_round(j: int, n: int)
    requires
        0 <= j < n,
    ensures
        (j + 1) % n == (if j + 1 < n {
            j + 1
        } else {
            0
        }),
        (j + n - 1) % n == (if j > 0 {
            j - 1
        } else {
            n - 1
        }),
{
    if j + 1 < n {
        vstd::arithmetic::div_mod::lemma_small_mod((j + 1) as nat, n as nat);
    } else {
        vstd::arithmetic::div_mod::lemma_mod_self_0(n);
    }
    if j > 0 {
        vstd::arithmetic::div_mod::lemma_mod_add_multiples_vanish(j - 1, n);
        vstd::arithmetic::div_mod::lemma_small_mod((j - 1) as nat, n as nat);
    } else {
        vstd::arithmetic::div_mod::lemma_small_mod((n - 1) as nat, n as nat);
    }
}

/// A key moves the focus to a job that there is; `k` undoes `j`, and `p` undoes `n`; and `n` and
/// `p` do as `j` and `k` do. Where there are several jobs, `j` and `k` go to another one.
pub proof fn law_cycle(key: u8, jobs: int, solo: Option<usize>)
    requires
        0 < jobs <= usize::MAX,
        solo matches Some(j) ==> j < jobs,
    ensures
        action(key, jobs, solo) matches Action::Focus(Some(j)) ==> j < jobs,
        solo is Some ==> (action(0x6a, jobs, solo) matches Action::Focus(next) && action(
            0x6b,
            jobs,
            next,
        ) == Action::Focus(solo)),
        jobs > 1 && solo is Some ==> (action(0x6a, jobs, solo) matches Action::Focus(next) && next
            is Some && next != solo),
        jobs > 1 && solo is Some ==> (action(0x6b, jobs, solo) matches Action::Focus(next) && next
            is Some && next != solo),
        action(0x6e, jobs, solo) == action(0x6a, jobs, solo),
        action(0x70, jobs, solo) == action(0x6b, jobs, solo),
{
    if let Some(s) = solo {
        lemma_round(s as int, jobs);
        lemma_round((s + 1) % jobs, jobs);
    }
}

} // verus!
