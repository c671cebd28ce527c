//! The text of logs: what a terminal would show of a raw line, and the cells of an index.

use crate::digits;
use crate::fmt;
use crate::text;
use crate::wrap;
use vstd::prelude::*;

verus! {

/// The bytes behind the last carriage return; all of them where there is none.
pub open spec fn behind_cr(b: Seq<u8>) -> Seq<u8>
    decreases b.len(),
{
    if b.len() == 0 || b.last() == 0x0d {
        Seq::empty()
    } else {
        behind_cr(b.drop_last()).push(b.last())
    }
}

/// `b` without the carriage returns at its end.
pub open spec fn without_crs(b: Seq<u8>) -> Seq<u8>
    decreases b.len(),
{
    if b.len() > 0 && b.last() == 0x0d {
        without_crs(b.drop_last())
    } else {
        b
    }
}

/// The longest line that is shown.
pub const MAX_SHOWN: usize = 4000;

/// `s`, cut off with an ellipsis behind the longest line that is shown.
pub open spec fn capped(s: Seq<char>) -> Seq<char> {
    if s.len() > MAX_SHOWN {
        s.take(MAX_SHOWN as int).push('…')
    } else {
        s
    }
}

/// What a terminal would show of a raw line.
pub open spec fn displayed(b: Seq<u8>) -> Seq<char> {
    capped(text::utf8_lossy(behind_cr(without_crs(b))))
}

/// The bytes from `i` on are those behind the last carriage return of the first `to`.
proof fn lemma_behind_cr(b: Seq<u8>, i: int)
    requires
        0 <= i <= b.len(),
        i > 0 ==> b[i - 1] == 0x0d,
        forall|k: int| i <= k < b.len() ==> b[k] != 0x0d,
    ensures
        behind_cr(b) == b.skip(i),
    decreases b.len(),
{
    if i < b.len() {
        lemma_behind_cr(b.drop_last(), i);
        assert(b.drop_last().skip(i).push(b.last()) == b.skip(i));
    } else {
        assert(b.skip(i) == Seq::<u8>::empty());
    }
}

/// The bytes behind the last carriage return; all of them where there is none.
pub fn after_last_cr(b: &[u8]) -> (r: Vec<u8>)
    ensures
        r@ == behind_cr(b@),
{
    let mut i: usize = b.len();
    while i > 0 && b[i - 1] != 0x0d
        invariant
            i <= b@.len(),
            forall|k: int| i <= k < b@.len() ==> b@[k] != 0x0d,
        decreases i,
    {
        i -= 1;
    }
    proof {
        lemma_behind_cr(b@, i as int);
    }
    bytes_of(b, i, b.len())
}

/// The bytes `from..to`.
pub fn bytes_of(b: &[u8], from: usize, to: usize) -> (r: Vec<u8>)
    requires
        from <= to <= b@.len(),
    ensures
        r@ == b@.subrange(from as int, to as int),
{
    let mut out: Vec<u8> = Vec::new();
    let mut i: usize = from;
    while i < to
        invariant
            from <= i <= to <= b@.len(),
            out@ == b@.subrange(from as int, i as int),
        decreases to - i,
    {
        out.push(b[i]);
        assert(b@.subrange(from as int, i + 1) == b@.subrange(from as int, i as int).push(
            b@[i as int],
        ));
        i += 1;
    }
    out
}

/// `s`, cut off with an ellipsis behind the longest line that is shown.
pub fn cap(s: String) -> (r: String)
    ensures
        r@ == capped(s@),
{
    let v = text::chars_of(s.as_str());
    if v.len() > MAX_SHOWN {
        let mut t = text::text_of(&v, 0, MAX_SHOWN);
        t.push('…');
        t
    } else {
        s
    }
}

/// Raw line bytes -> what the terminal would show: trailing CR stripped, only
/// the text after the last `\r` (progress bars rewrite the line), capped.
pub fn display_bytes(b: &[u8]) -> (r: String)
    ensures
        r@ == displayed(b@),
{
    let mut to: usize = b.len();
    assert(b@.take(to as int) == b@);
    while to > 0 && b[to - 1] == 0x0d
        invariant
            to <= b@.len(),
            without_crs(b@.take(to as int)) == without_crs(b@),
        decreases to,
    {
        assert(b@.take(to as int).drop_last() == b@.take(to - 1));
        to -= 1;
    }
    let kept = bytes_of(b, 0, to);
    assert(kept@ == without_crs(b@));
    cap(text::lossy(after_last_cr(kept.as_slice()).as_slice()))
}

// ---------------------------------------------------------------------------
// cells
// ---------------------------------------------------------------------------

/// `s`, shortened to `max` characters from the front.
pub open spec fn ellipsized_front(s: Seq<char>, max: int) -> Seq<char> {
    if s.len() <= max {
        s
    } else if max <= 0 {
        Seq::empty()
    } else {
        seq!['…'] + s.skip(s.len() - (max - 1))
    }
}

/// Path shortened from the front, because the filename end is the part that matters.
pub fn ellipsize_front(s: &str, max: usize) -> (r: String)
    ensures
        r@ == ellipsized_front(s@, max as int),
{
    let v = text::chars_of(s);
    let n: usize = v.len();
    if n <= max {
        return s.to_owned();
    }
    let mut t = String::new();
    if max == 0 {
        return t;
    }
    t.push('…');
    assert(t@ == seq!['…']);
    let tail = text::text_of(&v, n - (max - 1), n);
    assert(tail@ == s@.skip(s@.len() - (max - 1)));
    t.append(tail.as_str());
    t
}

/// The size of a file.
pub open spec fn bytes_text(b: int) -> Seq<char> {
    if b < 1024 {
        digits::decimal(b as nat) + " B"@
    } else {
        fmt::size_text(b / 1024)
    }
}

/// The size of a file.
pub fn human_bytes(b: u64) -> (r: String)
    ensures
        r@ == bytes_text(b as int),
{
    if b < 1024 {
        let mut s = digits::show(b);
        s.append(" B");
        s
    } else {
        fmt::size(b / 1024)
    }
}

/// The time since something happened; `None` stands for the future. Hours stand alone up to a
/// day.
pub open spec fn ago_text(elapsed: Option<u64>) -> Seq<char> {
    match elapsed {
        Some(d) => {
            let secs = wrap::signed_word(d as int);
            if d < 60 {
                digits::decimal(d as nat) + "s"@
            } else if 3600 <= secs < 86400 {
                digits::decimal((secs / 3600) as nat) + "h"@
            } else {
                fmt::until_text(secs)
            }
        },
        None => "0s"@,
    }
}

/// The time since something happened, from seconds: `59s`, `45m`, `14h`, `1d 1h`; `None` stands
/// for the future.
pub fn ago(elapsed: Option<u64>) -> (r: String)
    ensures
        r@ == ago_text(elapsed),
{
    match elapsed {
        Some(d) => {
            let secs: i64 = wrap::low_signed_word(d as i128);
            if d < 60 {
                let mut s = digits::show(d);
                s.append("s");
                s
            } else if 3600 <= secs && secs < 86400 {
                let mut s = digits::show(secs as u64 / 3600);
                s.append("h");
                s
            } else {
                fmt::until(secs)
            }
        },
        None => "0s".to_owned(),
    }
}

} // verus!
