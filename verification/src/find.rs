//! Finding a pattern in a text, and marking it.

use crate::paint::Pal;
use crate::paint;
use crate::text;
use vstd::prelude::*;

verus! {

// ---------------------------------------------------------------------------
// finding bytes
// ---------------------------------------------------------------------------

/// `b`, in lower case where it is one of `A` to `Z`.
pub open spec fn lower_byte(b: u8) -> u8 {
    if 0x41 <= b <= 0x5a {
        (b + 0x20) as u8
    } else {
        b
    }
}

/// Are two bytes the same, but for the case of letters where it does not matter?
pub open spec fn same_byte(a: u8, b: u8, icase: bool) -> bool {
    a == b || (icase && lower_byte(a) == lower_byte(b))
}

/// Does `needle` stand at `i`?
pub open spec fn stands_at(hay: Seq<u8>, needle: Seq<u8>, icase: bool, i: int) -> bool {
    &&& 0 <= i
    &&& i + needle.len() <= hay.len()
    &&& forall|k: int| 0 <= k < needle.len() ==> same_byte(#[trigger] hay[i + k], needle[k], icase)
}

/// Where a text stands in valid UTF-8, whole characters stand: the bytes before it and those
/// behind it are the bytes of characters.
pub proof fn law_found_between_characters(hay: Seq<u8>, needle: Seq<u8>, icase: bool, i: int)
    requires
        vstd::utf8::valid_utf8(hay),
        vstd::utf8::valid_utf8(needle),
        needle.len() > 0,
        stands_at(hay, needle, icase, i),
    ensures
        vstd::utf8::is_char_boundary(hay, i),
        vstd::utf8::is_char_boundary(hay, i + needle.len()),
{
    assert(same_byte(hay[i + 0], needle[0], icase));
    vstd::utf8::is_char_boundary_start_end_of_seq(needle);
    vstd::utf8::is_char_boundary_iff_not_is_continuation_byte(needle, 0);
    vstd::utf8::is_char_boundary_iff_not_is_continuation_byte(hay, i);
    lemma_same_kind(hay[i], needle[0], icase);
    vstd::utf8::valid_utf8_split(hay, i);
    let rest = hay.subrange(i, hay.len() as int);
    assert forall|k: int| 0 <= k < needle.len() implies same_byte(#[trigger] rest[k], needle[k], icase) by {
        assert(rest[k] == hay[i + k]);
    }
    lemma_prefix_boundary(rest, needle, icase);
    lemma_boundary_sum(hay, i, needle.len() as int);
}

/// Two bytes that are the same but for the case are of the same kind.
proof fn lemma_same_kind(a: u8, b: u8, icase: bool)
    requires
        same_byte(a, b, icase),
    ensures
        vstd::utf8::is_continuation_byte(a) == vstd::utf8::is_continuation_byte(b),
        vstd::utf8::is_leading_byte_width_1(a) == vstd::utf8::is_leading_byte_width_1(b),
        vstd::utf8::is_leading_byte_width_2(a) == vstd::utf8::is_leading_byte_width_2(b),
        vstd::utf8::is_leading_byte_width_3(a) == vstd::utf8::is_leading_byte_width_3(b),
        vstd::utf8::is_leading_byte_width_4(a) == vstd::utf8::is_leading_byte_width_4(b),
        a != b ==> vstd::utf8::is_leading_byte_width_1(a),
{
}

/// A text at the start of valid UTF-8 ends between characters.
proof fn lemma_prefix_boundary(b: Seq<u8>, s: Seq<u8>, icase: bool)
    requires
        vstd::utf8::valid_utf8(b),
        vstd::utf8::valid_utf8(s),
        s.len() <= b.len(),
        forall|k: int| 0 <= k < s.len() ==> same_byte(#[trigger] b[k], s[k], icase),
    ensures
        vstd::utf8::is_char_boundary(b, s.len() as int),
    decreases s.len(),
{
    if s.len() > 0 {
        assert(same_byte(b[0], s[0], icase));
        lemma_same_kind(b[0], s[0], icase);
        let n = vstd::utf8::length_of_first_scalar(s);
        assert(n == vstd::utf8::length_of_first_scalar(b));
        let b2 = vstd::utf8::pop_first_scalar(b);
        let s2 = vstd::utf8::pop_first_scalar(s);
        assert forall|k: int| 0 <= k < s2.len() implies same_byte(#[trigger] b2[k], s2[k], icase) by {
            assert(b2[k] == b[n + k] && s2[k] == s[n + k]);
        }
        lemma_prefix_boundary(b2, s2, icase);
    }
}

/// A boundary behind a boundary is one.
proof fn lemma_boundary_sum(b: Seq<u8>, i: int, j: int)
    requires
        vstd::utf8::valid_utf8(b),
        vstd::utf8::is_char_boundary(b, i),
        0 <= i <= b.len(),
        vstd::utf8::valid_utf8(b.subrange(i, b.len() as int)),
        vstd::utf8::is_char_boundary(b.subrange(i, b.len() as int), j),
        0 <= j,
    ensures
        vstd::utf8::is_char_boundary(b, i + j),
    decreases b.len(),
{
    if i == 0 {
        assert(b.subrange(0, b.len() as int) == b);
    } else {
        let n = vstd::utf8::length_of_first_scalar(b);
        let rest = vstd::utf8::pop_first_scalar(b);
        assert(vstd::utf8::is_char_boundary(rest, i - n));
        assert(i >= n);
        assert(rest.subrange(i - n, rest.len() as int) == b.subrange(i, b.len() as int));
        lemma_boundary_sum(rest, i - n, j);
        reveal_with_fuel(vstd::utf8::is_char_boundary, 2);
    }
}

/// Is `r` where `needle` first stands? An empty needle is nowhere.
pub open spec fn finds(hay: Seq<u8>, needle: Seq<u8>, icase: bool, r: Option<int>) -> bool {
    match r {
        Some(i) => needle.len() > 0 && stands_at(hay, needle, icase, i) && forall|j: int|
            0 <= j < i ==> !stands_at(hay, needle, icase, j),
        None => needle.len() == 0 || forall|j: int| !stands_at(hay, needle, icase, j),
    }
}

/// `b`, in lower case where it is one of `A` to `Z`.
fn to_lower(b: u8) -> (r: u8)
    ensures
        r == lower_byte(b),
{
    if 0x41 <= b && b <= 0x5a {
        b + 0x20
    } else {
        b
    }
}

/// Does `needle` stand at `i`?
fn is_at(hay: &[u8], needle: &[u8], icase: bool, i: usize) -> (r: bool)
    requires
        i + needle@.len() <= hay@.len(),
    ensures
        r == stands_at(hay@, needle@, icase, i as int),
{
    let n: usize = hay.len();
    let mut k: usize = 0;
    while k < needle.len()
        invariant
            k <= needle@.len(),
            i + needle@.len() <= hay@.len(),
            n == hay@.len(),
            forall|m: int|
                0 <= m < k ==> same_byte(#[trigger] hay@[i + m], needle@[m], icase),
        decreases needle@.len() - k,
    {
        let a: u8 = hay[i + k];
        let b: u8 = needle[k];
        if !(a == b || (icase && to_lower(a) == to_lower(b))) {
            assert(!same_byte(hay@[i + k], needle@[k as int], icase));
            return false;
        }
        k += 1;
    }
    true
}

/// Substring find; `icase` is ASCII-insensitive. Returns a byte offset.
pub fn find_ci(hay: &[u8], needle: &[u8], icase: bool) -> (r: Option<usize>)
    ensures
        finds(
            hay@,
            needle@,
            icase,
            match r {
                Some(i) => Some(i as int),
                None => None,
            },
        ),
{
    if needle.len() == 0 || needle.len() > hay.len() {
        return None;
    }
    let last: usize = hay.len() - needle.len();
    let mut i: usize = 0;
    loop
        invariant
            i <= last,
            last == hay@.len() - needle@.len(),
            needle@.len() > 0,
            forall|j: int| 0 <= j < i ==> !stands_at(hay@, needle@, icase, j),
        decreases last - i,
    {
        if is_at(hay, needle, icase, i) {
            return Some(i);
        }
        if i == last {
            return None;
        }
        i += 1;
    }
}

// ---------------------------------------------------------------------------
// marking a pattern
// ---------------------------------------------------------------------------

/// Are two characters the same, but for the case of letters where it does not matter?
pub open spec fn same_char(a: char, b: char, icase: bool) -> bool {
    a == b || (icase && text::lower_char(a) == text::lower_char(b))
}

/// Does `pat` stand at the start of `s`?
pub open spec fn begins_with(s: Seq<char>, pat: Seq<char>, icase: bool) -> bool {
    &&& pat.len() <= s.len()
    &&& forall|k: int| 0 <= k < pat.len() ==> same_char(#[trigger] s[k], pat[k], icase)
}

/// The index where `pat` first stands in `s`. An empty pattern is nowhere.
pub open spec fn found_in(s: Seq<char>, pat: Seq<char>, icase: bool) -> Option<int>
    decreases s.len(),
{
    if pat.len() == 0 || s.len() == 0 {
        None
    } else if begins_with(s, pat, icase) {
        Some(0)
    } else {
        match found_in(s.skip(1), pat, icase) {
            Some(i) => Some(i + 1),
            None => None,
        }
    }
}

/// A found pattern stands within the text.
pub proof fn lemma_found_in(s: Seq<char>, pat: Seq<char>, icase: bool)
    ensures
        found_in(s, pat, icase) matches Some(i) ==> pat.len() > 0 && 0 <= i && i + pat.len()
            <= s.len() && begins_with(s.skip(i), pat, icase) && forall|j: int|
            0 <= j < i ==> !begins_with(#[trigger] s.skip(j), pat, icase),
        found_in(s, pat, icase) is None && pat.len() > 0 ==> forall|j: int|
            0 <= j <= s.len() ==> !begins_with(#[trigger] s.skip(j), pat, icase),
    decreases s.len(),
{
    assert(s.skip(0) == s);
    if pat.len() > 0 && s.len() > 0 && !begins_with(s, pat, icase) {
        let rest = s.skip(1);
        lemma_found_in(rest, pat, icase);
        assert forall|j: int| 1 <= j <= s.len() implies #[trigger] s.skip(j) == rest.skip(j - 1) by {}
        assert forall|j: int|
            0 <= j <= s.len() && (found_in(s, pat, icase) matches Some(i) ==> j < i) implies !begins_with(
            #[trigger] s.skip(j),
            pat,
            icase,
        ) by {
            if j > 0 {
                assert(s.skip(j) == rest.skip(j - 1));
            }
        }
        if let Some(i) = found_in(rest, pat, icase) {
            assert(rest.skip(i) == s.skip(i + 1));
        }
    }
}

/// `s` with each occurrence of `pat` marked, from the left.
pub open spec fn marked(s: Seq<char>, pat: Seq<char>, icase: bool) -> Seq<char>
    decreases s.len(),
    via marked_decreases
{
    match found_in(s, pat, icase) {
        Some(i) => s.take(i) + paint::painted(true, "1;31"@, s.subrange(i, i + pat.len())) + marked(
            s.skip(i + pat.len()),
            pat,
            icase,
        ),
        None => s,
    }
}

#[via_fn]
proof fn marked_decreases(s: Seq<char>, pat: Seq<char>, icase: bool) {
    lemma_found_in(s, pat, icase);
}

/// The text up to the end of the first occurrence, and the marked rest.
proof fn lemma_marked(before: Seq<char>, s: Seq<char>, pat: Seq<char>, icase: bool, i: int)
    requires
        found_in(s, pat, icase) == Some(i),
    ensures
        before + s.take(i) + paint::painted(true, "1;31"@, s.subrange(i, i + pat.len())) + marked(
            s.skip(i + pat.len()),
            pat,
            icase,
        ) == before + marked(s, pat, icase),
{
    let a = s.take(i);
    let b = paint::painted(true, "1;31"@, s.subrange(i, i + pat.len()));
    let c = marked(s.skip(i + pat.len()), pat, icase);
    assert(marked(s, pat, icase) == a + b + c);
    assert(before + a + b + c == before + (a + b + c));
}

/// The parts of a text: those between the marked ones, and those that are marked.
pub open spec fn parts(s: Seq<char>, pat: Seq<char>, icase: bool) -> Seq<(Seq<char>, bool)>
    decreases s.len(),
    via parts_decreases
{
    match found_in(s, pat, icase) {
        Some(i) => seq![(s.take(i), false), (s.subrange(i, i + pat.len()), true)] + parts(
            s.skip(i + pat.len()),
            pat,
            icase,
        ),
        None => seq![(s, false)],
    }
}

#[via_fn]
proof fn parts_decreases(s: Seq<char>, pat: Seq<char>, icase: bool) {
    lemma_found_in(s, pat, icase);
}

/// The parts in a row.
pub open spec fn in_a_row(p: Seq<(Seq<char>, bool)>) -> Seq<char>
    decreases p.len(),
{
    if p.len() == 0 {
        Seq::empty()
    } else {
        p[0].0 + in_a_row(p.skip(1))
    }
}

/// The parts in a row, the marked ones in their colour.
pub open spec fn in_colour(p: Seq<(Seq<char>, bool)>) -> Seq<char>
    decreases p.len(),
{
    if p.len() == 0 {
        Seq::empty()
    } else if p[0].1 {
        paint::painted(true, "1;31"@, p[0].0) + in_colour(p.skip(1))
    } else {
        p[0].0 + in_colour(p.skip(1))
    }
}

/// Marking adds colour and nothing else: the parts in a row are the text, and what is marked
/// is an occurrence of the pattern.
pub proof fn law_marked(s: Seq<char>, pat: Seq<char>, icase: bool)
    ensures
        in_a_row(parts(s, pat, icase)) == s,
        in_colour(parts(s, pat, icase)) == marked(s, pat, icase),
        forall|k: int|
            0 <= k < parts(s, pat, icase).len() && (#[trigger] parts(s, pat, icase)[k]).1
                ==> parts(s, pat, icase)[k].0.len() == pat.len() && begins_with(
                parts(s, pat, icase)[k].0,
                pat,
                icase,
            ),
    decreases s.len(),
{
    let p = parts(s, pat, icase);
    lemma_found_in(s, pat, icase);
    match found_in(s, pat, icase) {
        Some(i) => {
            let n = pat.len();
            let a = s.take(i);
            let b = s.subrange(i, i + n);
            let rest = s.skip(i + n);
            let q = parts(rest, pat, icase);
            law_marked(rest, pat, icase);
            assert(p == seq![(a, false), (b, true)] + q);
            assert(p.skip(1) == seq![(b, true)] + q);
            assert(p.skip(1).skip(1) == q);
            assert(in_a_row(p.skip(1)) == b + in_a_row(q));
            assert(in_a_row(p) == a + (b + rest));
            assert(a + (b + rest) == s);
            let c = paint::painted(true, "1;31"@, b);
            assert(in_colour(p.skip(1)) == c + in_colour(q));
            assert(in_colour(p) == a + (c + in_colour(q)));
            assert(a + (c + in_colour(q)) == a + c + in_colour(q));
            assert(begins_with(b, pat, icase)) by {
                assert forall|k: int| 0 <= k < n implies same_char(#[trigger] b[k], pat[k], icase) by {
                    assert(b[k] == s.skip(i)[k]);
                }
            }
            assert forall|k: int| 0 <= k < p.len() && (#[trigger] p[k]).1 implies p[k].0.len()
                == pat.len() && begins_with(p[k].0, pat, icase) by {
                if k >= 2 {
                    assert(p[k] == q[k - 2]);
                }
            }
        },
        None => {
            assert(p == seq![(s, false)]);
            assert(p.skip(1) == Seq::<(Seq<char>, bool)>::empty());
            assert(in_a_row(p.skip(1)) == Seq::<char>::empty());
            assert(in_colour(p.skip(1)) == Seq::<char>::empty());
            assert(s + Seq::<char>::empty() == s);
        },
    }
}

/// `line` with each occurrence of `pat` marked, where colours are on.
pub open spec fn highlighted(on: bool, line: Seq<char>, pat: Seq<char>, icase: bool) -> Seq<char> {
    if on {
        marked(line, pat, icase)
    } else {
        line
    }
}

/// `c`, in lower case where it is one of `A` to `Z`.
fn lower_of(c: char) -> (r: char)
    ensures
        r == text::lower_char(c),
{
    if 'A' <= c && c <= 'Z' {
        ((c as u8) + 32) as char
    } else {
        c
    }
}

/// Where `pat` first stands in `s`, at `from` or later.
fn find_text(s: &Vec<char>, pat: &Vec<char>, icase: bool, from: usize) -> (r: Option<usize>)
    requires
        from <= s@.len(),
    ensures
        match r {
            Some(i) => from <= i && pat@.len() > 0 && i + pat@.len() <= s@.len() && found_in(
                s@.skip(from as int),
                pat@,
                icase,
            ) == Some(i - from),
            None => found_in(s@.skip(from as int), pat@, icase) is None,
        },
{
    if pat.len() == 0 {
        return None;
    }
    let mut i: usize = from;
    while i < s.len()
        invariant
            from <= i <= s@.len(),
            pat@.len() > 0,
            match found_in(s@.skip(i as int), pat@, icase) {
                Some(k) => found_in(s@.skip(from as int), pat@, icase) == Some(k + (i - from)),
                None => found_in(s@.skip(from as int), pat@, icase) is None,
            },
        decreases s@.len() - i,
    {
        let ghost t = s@.skip(i as int);
        assert(t.skip(1) == s@.skip(i + 1));
        let mut k: usize = 0;
        while k < pat.len() && k < s.len() - i && (s[i + k] == pat[k] || (icase && lower_of(s[i + k])
            == lower_of(pat[k])))
            invariant
                i < s@.len(),
                t == s@.skip(i as int),
                k <= pat@.len(),
                k <= s@.len() - i,
                forall|m: int| 0 <= m < k ==> same_char(#[trigger] t[m], pat@[m], icase),
            decreases pat@.len() - k,
        {
            assert(t[k as int] == s@[i + k]);
            k += 1;
        }
        if k == pat.len() {
            assert(begins_with(t, pat@, icase));
            return Some(i);
        }
        assert(!begins_with(t, pat@, icase)) by {
            if k < s@.len() - i {
                assert(t[k as int] == s@[i + k]);
                assert(!same_char(t[k as int], pat@[k as int], icase));
            }
        }
        i += 1;
    }
    None
}

/// Appends the text from `rest` to the end of the next occurrence, which it marks; returns
/// that end. Without one it appends all.
fn mark_next(out: &mut String, s: &Vec<char>, pat: &Vec<char>, icase: bool, rest: usize) -> (r:
    Option<usize>)
    requires
        rest <= s@.len(),
    ensures
        match r {
            Some(end) => rest < end <= s@.len() && final(out)@ + marked(
                s@.skip(end as int),
                pat@,
                icase,
            ) == old(out)@ + marked(s@.skip(rest as int), pat@, icase),
            None => final(out)@ == old(out)@ + marked(s@.skip(rest as int), pat@, icase),
        },
{
    let ghost t = s@.skip(rest as int);
    let n: usize = s.len();
    match find_text(s, pat, icase, rest) {
        Some(i) => {
            proof {
                lemma_marked(out@, t, pat@, icase, i - rest);
            }
            let end: usize = i + pat.len();
            let a = text::text_of(s, rest, i);
            let b = text::text_of(s, i, end);
            assert(a@ == t.take(i - rest));
            assert(b@ == t.subrange(i - rest, i - rest + pat@.len()));
            assert(t.skip(i - rest + pat@.len()) == s@.skip(end as int));
            out.append(a.as_str());
            out.append(paint::paint(true, "1;31", b.as_str()).as_str());
            Some(end)
        },
        None => {
            let tail = text::text_of(s, rest, n);
            assert(tail@ == t);
            out.append(tail.as_str());
            None
        },
    }
}

/// `line` with each occurrence of `pat` marked, where colours are on.
pub fn highlight(pal: Pal, line: &str, pat: &str, icase: bool) -> (r: String)
    ensures
        r@ == highlighted(pal.on, line@, pat@, icase),
{
    if !pal.on {
        return line.to_owned();
    }
    let s = text::chars_of(line);
    let p = text::chars_of(pat);
    let mut out = String::new();
    let mut rest: usize = 0;
    assert(s@.skip(0) == s@);
    assert(out@ + marked(s@, p@, icase) == marked(s@, p@, icase));
    loop
        invariant_except_break
            rest <= s@.len(),
            out@ + marked(s@.skip(rest as int), p@, icase) == marked(s@, p@, icase),
        ensures
            out@ == marked(s@, p@, icase),
        decreases s@.len() - rest,
    {
        match mark_next(&mut out, &s, &p, icase, rest) {
            Some(end) => {
                rest = end;
            },
            None => {
                break;
            },
        }
    }
    out
}

// ---------------------------------------------------------------------------
// bytes and characters
// ---------------------------------------------------------------------------

/// The bytes of a text are those of its first character and those of the rest.
proof fn lemma_first_bytes(s: Seq<char>)
    requires
        s.len() > 0,
    ensures
        ({
            let b = vstd::utf8::encode_utf8(s);
            let n = vstd::utf8::length_of_first_scalar(b);
            &&& vstd::utf8::valid_utf8(b)
            &&& 1 <= n <= b.len()
            &&& b.skip(n) == vstd::utf8::encode_utf8(s.skip(1))
            &&& vstd::utf8::valid_first_scalar(b)
            &&& vstd::utf8::decode_first_scalar(b) == s[0] as u32
            &&& b.take(n) == vstd::utf8::encode_scalar(s[0] as u32)
        }),
{
    let b = vstd::utf8::encode_utf8(s);
    vstd::utf8::encode_utf8_valid_utf8(s);
    vstd::utf8::encode_utf8_first_scalar(s);
    assert(s.drop_first() == s.skip(1));
    let n = vstd::utf8::length_of_first_scalar(b);
    assert(b.skip(n) == vstd::utf8::encode_utf8(s.skip(1)));
    assert(b.take(n) == vstd::utf8::encode_scalar(s[0] as u32));
}

/// Do the bytes of `p` stand at the start of `b`?
spec fn starts(b: Seq<u8>, p: Seq<u8>, icase: bool) -> bool {
    &&& p.len() <= b.len()
    &&& forall|k: int| 0 <= k < p.len() ==> same_byte(#[trigger] b[k], p[k], icase)
}

/// Letters that differ in case only are one byte each.
proof fn lemma_case_bytes(a: char, b: char, icase: bool)
    requires
        same_char(a, b, icase),
    ensures
        a == b || ({
            let x = vstd::utf8::encode_scalar(a as u32);
            let y = vstd::utf8::encode_scalar(b as u32);
            x.len() == 1 && y.len() == 1 && same_byte(x[0], y[0], icase)
        }),
{
    if a != b {
        let u = a as u32;
        let v = b as u32;
        assert(0x41 <= u <= 0x7a && 0x41 <= v <= 0x7a);
        assert(u & 0x7f == u && v & 0x7f == v) by (bit_vector)
            requires
                u <= 0x7a,
                v <= 0x7a,
        ;
    }
}

/// A pattern at the start of a text stands at the start of its bytes.
proof fn lemma_chars_to_bytes(s: Seq<char>, p: Seq<char>, icase: bool)
    requires
        begins_with(s, p, icase),
    ensures
        starts(vstd::utf8::encode_utf8(s), vstd::utf8::encode_utf8(p), icase),
    decreases p.len(),
{
    if p.len() > 0 {
        let a = vstd::utf8::encode_utf8(s);
        let b = vstd::utf8::encode_utf8(p);
        lemma_first_bytes(s);
        lemma_first_bytes(p);
        assert forall|k: int| 0 <= k < p.skip(1).len() implies same_char(
            #[trigger] s.skip(1)[k],
            p.skip(1)[k],
            icase,
        ) by {
            assert(s.skip(1)[k] == s[k + 1] && p.skip(1)[k] == p[k + 1]);
        }
        lemma_chars_to_bytes(s.skip(1), p.skip(1), icase);
        assert(same_char(s[0], p[0], icase));
        lemma_case_bytes(s[0], p[0], icase);
        let n = vstd::utf8::length_of_first_scalar(a);
        assert(n == vstd::utf8::length_of_first_scalar(b)) by {
            assert(a.take(n).len() == n);
            assert(b.take(vstd::utf8::length_of_first_scalar(b)).len()
                == vstd::utf8::length_of_first_scalar(b));
        }
        assert forall|k: int| 0 <= k < b.len() implies same_byte(#[trigger] a[k], b[k], icase) by {
            if k < n {
                assert(a[k] == a.take(n)[k] && b[k] == b.take(n)[k]);
            } else {
                assert(a[k] == a.skip(n)[k - n] && b[k] == b.skip(n)[k - n]);
            }
        }
    }
}

/// A pattern whose bytes stand at the start of the bytes of a text stands at its start.
proof fn lemma_bytes_to_chars(s: Seq<char>, p: Seq<char>, icase: bool)
    requires
        starts(vstd::utf8::encode_utf8(s), vstd::utf8::encode_utf8(p), icase),
    ensures
        begins_with(s, p, icase),
    decreases p.len(),
{
    if p.len() > 0 {
        let a = vstd::utf8::encode_utf8(s);
        let b = vstd::utf8::encode_utf8(p);
        lemma_first_bytes(p);
        assert(s.len() > 0);
        lemma_first_bytes(s);
        assert(same_byte(a[0], b[0], icase));
        lemma_same_kind(a[0], b[0], icase);
        let n = vstd::utf8::length_of_first_scalar(a);
        assert(n == vstd::utf8::length_of_first_scalar(b));
        let a2 = a.skip(n);
        let b2 = b.skip(n);
        assert forall|k: int| 0 <= k < b2.len() implies same_byte(#[trigger] a2[k], b2[k], icase) by {
            assert(a2[k] == a[n + k] && b2[k] == b[n + k]);
        }
        lemma_bytes_to_chars(s.skip(1), p.skip(1), icase);
        assert(same_char(s[0], p[0], icase)) by {
            lemma_first_char(a, b, icase, s[0], p[0]);
        }
        assert forall|k: int| 0 <= k < p.len() implies same_char(#[trigger] s[k], p[k], icase) by {
            if k > 0 {
                assert(s[k] == s.skip(1)[k - 1] && p[k] == p.skip(1)[k - 1]);
            }
        }
    }
}

/// First characters whose bytes are the same but for the case are so too.
proof fn lemma_first_char(a: Seq<u8>, b: Seq<u8>, icase: bool, c: char, d: char)
    requires
        starts(a, b, icase),
        b.len() > 0,
        vstd::utf8::valid_first_scalar(a),
        vstd::utf8::valid_first_scalar(b),
        vstd::utf8::decode_first_scalar(a) == c as u32,
        vstd::utf8::decode_first_scalar(b) == d as u32,
    ensures
        same_char(c, d, icase),
{
    assert(same_byte(a[0], b[0], icase));
    lemma_same_kind(a[0], b[0], icase);
    if a[0] != b[0] {
        let x = a[0];
        let y = b[0];
        assert(x & 0x7f == x && y & 0x7f == y) by (bit_vector)
            requires
                x < 0x80,
                y < 0x80,
        ;
    } else {
        let n = vstd::utf8::length_of_first_scalar(a);
        assert forall|k: int| 0 <= k < n implies a[k] == b[k] by {
            assert(same_byte(a[k], b[k], icase));
            lemma_same_kind(a[k], b[k], icase);
        }
        assert(c as u32 == d as u32);
    }
}

/// The bytes of a text are those of its start and those of the rest.
proof fn lemma_split_bytes(s: Seq<char>, k: int)
    requires
        0 <= k <= s.len(),
    ensures
        vstd::utf8::encode_utf8(s) == vstd::utf8::encode_utf8(s.take(k)) + vstd::utf8::encode_utf8(
            s.skip(k),
        ),
        vstd::utf8::encode_utf8(s.take(k)).len() >= k,
    decreases k,
{
    if k == 0 {
        assert(s.take(0) == Seq::<char>::empty());
        assert(s.skip(0) == s);
    } else {
        lemma_split_bytes(s.skip(1), k - 1);
        assert(s.take(k).skip(1) == s.skip(1).take(k - 1));
        assert(s.skip(1).skip(k - 1) == s.skip(k));
        assert(s.drop_first() == s.skip(1));
        assert(s.take(k).drop_first() == s.take(k).skip(1));
        assert(s.take(k)[0] == s[0]);
        lemma_first_bytes(s);
    }
}

/// A boundary between the characters of a text stands behind some of them.
proof fn lemma_boundary_index(s: Seq<char>, i: int) -> (k: int)
    requires
        vstd::utf8::valid_utf8(vstd::utf8::encode_utf8(s)),
        vstd::utf8::is_char_boundary(vstd::utf8::encode_utf8(s), i),
    ensures
        0 <= k <= s.len(),
        i == vstd::utf8::encode_utf8(s.take(k)).len(),
    decreases s.len(),
{
    let b = vstd::utf8::encode_utf8(s);
    if i == 0 {
        assert(s.take(0) == Seq::<char>::empty());
        0
    } else {
        lemma_first_bytes(s);
        let n = vstd::utf8::length_of_first_scalar(b);
        assert(vstd::utf8::pop_first_scalar(b) == b.skip(n));
        let k = lemma_boundary_index(s.skip(1), i - n);
        assert(s.take(k + 1).skip(1) == s.skip(1).take(k));
        assert(s.take(k + 1).drop_first() == s.take(k + 1).skip(1));
        assert(s.take(k + 1)[0] == s[0]);
        assert(b.take(n).len() == n);
        k + 1
    }
}

/// What is found among the bytes of a text is what is found among its characters.
pub proof fn law_bytes_find_characters(s: Seq<char>, p: Seq<char>, icase: bool, r: Option<int>)
    requires
        finds(vstd::utf8::encode_utf8(s), vstd::utf8::encode_utf8(p), icase, r),
    ensures
        match r {
            Some(i) => found_in(s, p, icase) matches Some(k) && i == vstd::utf8::encode_utf8(
                s.take(k),
            ).len(),
            None => found_in(s, p, icase) is None,
        },
{
    let a = vstd::utf8::encode_utf8(s);
    let b = vstd::utf8::encode_utf8(p);
    if p.len() > 0 {
        lemma_found_in(s, p, icase);
        lemma_first_bytes(p);
        vstd::utf8::encode_utf8_valid_utf8(s);
        if let Some(m) = found_in(s, p, icase) {
            let at = vstd::utf8::encode_utf8(s.take(m)).len() as int;
            lemma_split_bytes(s, m);
            let rest = vstd::utf8::encode_utf8(s.skip(m));
            lemma_chars_to_bytes(s.skip(m), p, icase);
            assert forall|k: int| 0 <= k < b.len() implies same_byte(#[trigger] a[at + k], b[k], icase) by {
                assert(a[at + k] == rest[k]);
            }
            assert(stands_at(a, b, icase, at));
        }
        if let Some(i) = r {
            law_found_between_characters(a, b, icase, i);
            let k = lemma_boundary_index(s, i);
            lemma_split_bytes(s, k);
            let rest = vstd::utf8::encode_utf8(s.skip(k));
            assert forall|m: int| 0 <= m < b.len() implies same_byte(#[trigger] rest[m], b[m], icase) by {
                assert(a[i + m] == rest[m]);
            }
            lemma_bytes_to_chars(s.skip(k), p, icase);
            let m = found_in(s, p, icase)->0;
            if m < k {
                lemma_split_bytes(s.take(k), m);
                assert(s.take(k).take(m) == s.take(m));
                let mid = s.take(k).skip(m);
                lemma_split_bytes(mid, mid.len() as int);
                assert(mid.take(mid.len() as int) == mid);
            }
        }
    }
}

} // verus!
