//! Laws of taking texts apart and putting them together.

use crate::text;
use vstd::prelude::*;

verus! {

/// Is all of `s` white space?
pub open spec fn blank(s: Seq<char>) -> bool {
    forall|i: int| 0 <= i < s.len() ==> text::is_space(#[trigger] s[i])
}

/// Is none of `s` white space?
pub open spec fn solid(s: Seq<char>) -> bool {
    forall|i: int| 0 <= i < s.len() ==> !text::is_space(#[trigger] s[i])
}

/// Does `c` not occur in `s`?
pub open spec fn free_of(s: Seq<char>, c: char) -> bool {
    forall|i: int| 0 <= i < s.len() ==> #[trigger] s[i] != c
}

/// Is `t` what is left of `s` between the white space `a` and `b`?
pub open spec fn stands_between(s: Seq<char>, a: Seq<char>, t: Seq<char>, b: Seq<char>) -> bool {
    s == a + t + b && blank(a) && blank(b)
}

/// The white space among the characters that are used in practice: spaces, tabs and line ends.
pub proof fn law_white_space(c: char, r: bool)
    requires
        call_ensures(text::space, (c,), r),
    ensures
        c == ' ' || c == '\t' || c == '\n' || c == '\r' ==> r,
        '!' <= c <= '~' ==> !r,
{
}

/// Trimming the start takes white space away.
proof fn lemma_start(s: Seq<char>) -> (a: Seq<char>)
    ensures
        s == a + text::trimmed_start(s),
        blank(a),
        text::trimmed_start(s).len() > 0 ==> !text::is_space(text::trimmed_start(s)[0]),
    decreases s.len(),
{
    if s.len() > 0 && text::is_space(s[0]) {
        let b = lemma_start(s.skip(1));
        let a = seq![s[0]] + b;
        assert(s == a + text::trimmed_start(s)) by {
            assert(s == seq![s[0]] + s.skip(1));
        }
        assert forall|i: int| 0 <= i < a.len() implies text::is_space(#[trigger] a[i]) by {
            if i > 0 {
                assert(a[i] == b[i - 1]);
            }
        }
        a
    } else {
        assert(s == Seq::<char>::empty() + s);
        Seq::empty()
    }
}

/// Trimming the end takes white space away.
proof fn lemma_end(s: Seq<char>) -> (b: Seq<char>)
    ensures
        s == text::trimmed_end(s) + b,
        blank(b),
        text::trimmed_end(s).len() > 0 ==> !text::is_space(text::trimmed_end(s).last()),
    decreases s.len(),
{
    if s.len() > 0 && text::is_space(s.last()) {
        let a = lemma_end(s.drop_last());
        let b = a.push(s.last());
        assert(s == text::trimmed_end(s) + b) by {
            assert(s == s.drop_last().push(s.last()));
        }
        b
    } else {
        assert(s == s + Seq::<char>::empty());
        Seq::empty()
    }
}

/// A trimmed text starts and ends with no white space, and nothing but white space went.
pub proof fn law_trim(s: &str, r: String)
    requires
        call_ensures(text::trim, (s,), r),
    ensures
        r@.len() > 0 ==> !text::is_space(r@[0]) && !text::is_space(r@.last()),
        exists|a: Seq<char>, b: Seq<char>| stands_between(s@, a, r@, b),
{
    let a = lemma_start(s@);
    let b = lemma_end(text::trimmed_start(s@));
    assert(s@ == a + r@ + b);
    assert(stands_between(s@, a, r@, b));
}

/// The pieces of a text, with the character between them, are the text; and it occurs in none.
pub proof fn law_split(s: &str, c: char, r: Vec<String>)
    requires
        call_ensures(text::split, (s, c), r),
    ensures
        r@.len() > 0,
        s@ == text::joined(text::texts(r@), seq![c]),
        forall|i: int| 0 <= i < r@.len() ==> free_of(#[trigger] r@[i]@, c),
{
    lemma_pieces(s@, c);
    assert forall|i: int| 0 <= i < r@.len() implies free_of(#[trigger] r@[i]@, c) by {
        assert(text::texts(r@)[i] == r@[i]@);
    }
}

/// The first of texts in a row, and the others behind it.
proof fn lemma_joined_first(a: Seq<char>, rest: Seq<Seq<char>>, sep: Seq<char>)
    requires
        rest.len() > 0,
    ensures
        text::joined(seq![a] + rest, sep) == a + sep + text::joined(rest, sep),
    decreases rest.len(),
{
    let all = seq![a] + rest;
    if rest.len() == 1 {
        assert(all.drop_last() == seq![a]);
        assert(all.last() == rest[0]);
        assert(text::joined(seq![a], sep) == a);
    } else {
        lemma_joined_first(a, rest.drop_last(), sep);
        assert(all.drop_last() == seq![a] + rest.drop_last());
        assert(all.last() == rest.last());
        assert(a + sep + text::joined(rest.drop_last(), sep) + sep + rest.last() == a + sep + (
        text::joined(rest.drop_last(), sep) + sep + rest.last()));
    }
}

/// The pieces of a text give it back.
proof fn lemma_pieces(s: Seq<char>, c: char)
    ensures
        text::pieces(s, c).len() > 0,
        text::joined(text::pieces(s, c), seq![c]) == s,
        forall|i: int| 0 <= i < text::pieces(s, c).len() ==> free_of(#[trigger] text::pieces(s, c)[i], c),
    decreases s.len(),
{
    let i = text::first_at(s, c);
    text::lemma_first_at(s, c);
    if i < s.len() {
        let rest = text::pieces(s.skip(i + 1), c);
        lemma_pieces(s.skip(i + 1), c);
        lemma_joined_first(s.take(i), rest, seq![c]);
        assert(s == s.take(i) + seq![c] + s.skip(i + 1));
        let all = text::pieces(s, c);
        assert forall|k: int| 0 <= k < all.len() implies free_of(#[trigger] all[k], c) by {
            if k > 0 {
                assert(all[k] == rest[k - 1]);
            } else {
                assert(all[0] == s.take(i));
            }
        }
    } else {
        assert(text::pieces(s, c) == seq![s]);
    }
}

/// A text is cut at the first occurrence of the character, and not cut where there is none.
pub proof fn law_split_once(s: &str, c: char, r: Option<(String, String)>)
    requires
        call_ensures(text::split_once, (s, c), r),
    ensures
        match r {
            Some(p) => s@ == p.0@ + seq![c] + p.1@ && free_of(p.0@, c),
            None => free_of(s@, c),
        },
{
    text::lemma_first_at(s@, c);
    let i = text::first_at(s@, c);
    if i < s@.len() {
        assert(s@ == s@.take(i) + seq![c] + s@.skip(i + 1));
    }
}

/// The head of a text is what stands before the first occurrence of the character, or all of it.
pub proof fn law_head(s: &str, c: char, r: String)
    requires
        call_ensures(text::head, (s, c), r),
    ensures
        free_of(r@, c),
        s@ == r@ || (r@.len() < s@.len() && s@.take(r@.len() as int) == r@ && s@[r@.len() as int] == c),
{
    text::lemma_first_at(s@, c);
    let i = text::first_at(s@, c);
    if i == s@.len() {
        assert(s@.take(i) == s@);
    }
}

/// White space has no words; and a word behind white space, with white space or nothing behind
/// it, is the first.
pub proof fn law_words(gap: Seq<char>, word: Seq<char>, rest: Seq<char>)
    requires
        blank(gap),
        solid(word),
        word.len() > 0,
        rest.len() > 0 ==> text::is_space(rest[0]),
    ensures
        text::words(gap).len() == 0,
        text::words(gap + word + rest) == seq![word] + text::words(rest),
{
    let s = gap + word + rest;
    lemma_skipped(gap, word + rest);
    assert(gap + (word + rest) == s);
    lemma_skipped(gap, Seq::empty());
    assert(gap + Seq::<char>::empty() == gap);
    let t = word + rest;
    lemma_long(word, rest);
    assert(t.take(word.len() as int) == word);
    assert(t.skip(word.len() as int) == rest);
}

/// White space in front goes.
proof fn lemma_skipped(gap: Seq<char>, t: Seq<char>)
    requires
        blank(gap),
        t.len() > 0 ==> !text::is_space(t[0]),
    ensures
        text::trimmed_start(gap + t) == t,
    decreases gap.len(),
{
    let s = gap + t;
    if gap.len() > 0 {
        assert(s[0] == gap[0]);
        assert(s.skip(1) == gap.skip(1) + t);
        assert forall|i: int| 0 <= i < gap.skip(1).len() implies text::is_space(
            #[trigger] gap.skip(1)[i],
        ) by {
            assert(gap.skip(1)[i] == gap[i + 1]);
        }
        lemma_skipped(gap.skip(1), t);
    } else {
        assert(s == t);
    }
}

/// A word ends where white space begins.
proof fn lemma_long(word: Seq<char>, rest: Seq<char>)
    requires
        solid(word),
        rest.len() > 0 ==> text::is_space(rest[0]),
    ensures
        text::word_len(word + rest) == word.len(),
    decreases word.len(),
{
    let t = word + rest;
    if word.len() > 0 {
        assert(t[0] == word[0]);
        assert(t.skip(1) == word.skip(1) + rest);
        assert forall|i: int| 0 <= i < word.skip(1).len() implies !text::is_space(
            #[trigger] word.skip(1)[i],
        ) by {
            assert(word.skip(1)[i] == word[i + 1]);
        }
        lemma_long(word.skip(1), rest);
    } else {
        assert(t == rest);
    }
}

/// `split_whitespace` gives the words.
pub proof fn law_split_whitespace(gap: Seq<char>, word: Seq<char>, rest: Seq<char>, s: &str, r: Vec<String>)
    requires
        call_ensures(text::split_whitespace, (s,), r),
        s@ == gap + word + rest,
        blank(gap),
        solid(word),
        word.len() > 0,
        rest.len() > 0 ==> text::is_space(rest[0]),
    ensures
        r@.len() == 1 + text::words(rest).len(),
        r@[0]@ == word,
        forall|i: int| 1 <= i < r@.len() ==> #[trigger] r@[i]@ == text::words(rest)[i - 1],
{
    law_words(gap, word, rest);
    let t = text::texts(r@);
    assert(t.len() == r@.len());
    assert(t[0] == word);
    assert forall|i: int| 1 <= i < r@.len() implies #[trigger] r@[i]@ == text::words(rest)[i - 1] by {
        assert(t[i] == r@[i]@);
    }
}

/// The lines of a text: one up to its line end, without a carriage return there, and those of
/// the rest; the last needs no line end, and no text has no line.
pub proof fn law_lines(line: Seq<char>, rest: Seq<char>)
    requires
        free_of(line, '\n'),
    ensures
        text::text_lines(Seq::empty()).len() == 0,
        line.len() > 0 ==> text::text_lines(line) == seq![line],
        text::text_lines(line + seq!['\r', '\n'] + rest) == seq![line] + text::text_lines(rest),
        !(line.len() > 0 && line.last() == '\r') ==> text::text_lines(line + seq!['\n'] + rest)
            == seq![line] + text::text_lines(rest),
{
    text::lemma_first_at(line, '\n');
    let a = line + seq!['\n'] + rest;
    text::lemma_first_at(a, '\n');
    assert(a[line.len() as int] == '\n');
    assert forall|i: int| 0 <= i < line.len() implies a[i] != '\n' by {
        assert(a[i] == line[i]);
    }
    assert(text::first_at(a, '\n') == line.len());
    assert(a.take(line.len() as int) == line);
    assert(a.skip(line.len() as int + 1) == rest);
    let b = line + seq!['\r', '\n'] + rest;
    text::lemma_first_at(b, '\n');
    assert(b[line.len() as int + 1] == '\n');
    assert(b[line.len() as int] == '\r');
    assert forall|i: int| 0 <= i < line.len() + 1 implies b[i] != '\n' by {
        if i < line.len() {
            assert(b[i] == line[i]);
        }
    }
    assert(text::first_at(b, '\n') == line.len() as int + 1);
    assert(b.take(line.len() as int + 1) == line.push('\r'));
    assert(line.push('\r').drop_last() == line);
    assert(b.skip(line.len() as int + 2) == rest);
}

/// `lines` gives the lines.
pub proof fn law_read_lines(line: Seq<char>, rest: Seq<char>, s: &str, r: Vec<String>)
    requires
        call_ensures(text::lines, (s,), r),
        s@ == line + seq!['\n'] + rest,
        free_of(line, '\n'),
        !(line.len() > 0 && line.last() == '\r'),
    ensures
        r@.len() == 1 + text::text_lines(rest).len(),
        r@[0]@ == line,
{
    law_lines(line, rest);
    assert(text::texts(r@)[0] == line);
    assert(text::texts(r@).len() == r@.len());
}

/// Removing a character keeps the others in their order.
pub proof fn law_remove_char(s: &str, c: char, r: String)
    requires
        call_ensures(text::remove_char, (s, c), r),
    ensures
        r@ == s@.filter(|x: char| x != c),
{
    lemma_without(s@, c);
}

/// What stays are the other characters.
pub(crate) proof fn lemma_without(s: Seq<char>, c: char)
    ensures
        text::without(s, c) == s.filter(|x: char| x != c),
    decreases s.len(),
{
    reveal(Seq::filter);
    if s.len() > 0 {
        lemma_without(s.drop_last(), c);
    }
}

/// A text occurs in another where it stands between something and something.
pub proof fn law_contains(s: &str, p: &str, r: bool)
    requires
        call_ensures(text::contains, (s, p), r),
    ensures
        r == exists|a: Seq<char>, b: Seq<char>| s@ == #[trigger] surrounded(a, p@, b),
{
    if r {
        let i = choose|i: int| 0 <= i <= s@.len() && text::begins(#[trigger] s@.skip(i), p@);
        assert(s@.skip(i).take(p@.len() as int) == p@);
        assert(s@ == surrounded(s@.take(i), p@, s@.skip(i).skip(p@.len() as int))) by {
            assert(s@.skip(i) == p@ + s@.skip(i).skip(p@.len() as int));
            assert(s@ == s@.take(i) + s@.skip(i));
        }
    }
    if exists|a: Seq<char>, b: Seq<char>| s@ == #[trigger] surrounded(a, p@, b) {
        let (a, b) = choose|a: Seq<char>, b: Seq<char>| s@ == #[trigger] surrounded(a, p@, b);
        assert(s@.skip(a.len() as int) == p@ + b);
        assert((p@ + b).take(p@.len() as int) == p@);
        assert(text::begins(s@.skip(a.len() as int), p@));
    }
}

/// `p` between `a` and `b`.
pub open spec fn surrounded(a: Seq<char>, p: Seq<char>, b: Seq<char>) -> Seq<char> {
    a + p + b
}

/// A text starts with another where it is that one and something behind it.
pub proof fn law_starts_with(s: &str, p: &str, r: bool)
    requires
        call_ensures(text::starts_with, (s, p), r),
    ensures
        r == exists|b: Seq<char>| s@ == #[trigger] surrounded(Seq::empty(), p@, b),
{
    if r {
        assert(s@ == surrounded(Seq::empty(), p@, s@.skip(p@.len() as int))) by {
            assert(s@ == s@.take(p@.len() as int) + s@.skip(p@.len() as int));
        }
    }
    if exists|b: Seq<char>| s@ == #[trigger] surrounded(Seq::empty(), p@, b) {
        let b = choose|b: Seq<char>| s@ == #[trigger] surrounded(Seq::empty(), p@, b);
        assert(s@.take(p@.len() as int) == p@);
    }
}

/// Byte strings are ordered by the first byte in which they differ; and what is shorter comes
/// first where they do not differ so far.
pub proof fn law_bytes_order(common: Seq<u8>, x: u8, y: u8, a: Seq<u8>, b: Seq<u8>)
    requires
        x < y,
    ensures
        text::bytes_before(common + seq![x] + a, common + seq![y] + b),
        !text::bytes_before(common + seq![y] + b, common + seq![x] + a),
        text::bytes_before(common, common + seq![y] + b),
        !text::bytes_before(common + seq![y] + b, common),
    decreases common.len(),
{
    let p = common + seq![x] + a;
    let q = common + seq![y] + b;
    if common.len() > 0 {
        let c = common.skip(1);
        law_bytes_order(c, x, y, a, b);
        assert(p.skip(1) == c + seq![x] + a);
        assert(q.skip(1) == c + seq![y] + b);
    }
}

/// `precedes` orders texts by their UTF-8 bytes.
pub proof fn law_precedes(a: &str, b: &str, r: bool)
    requires
        call_ensures(text::precedes, (a, b), r),
    ensures
        r == text::bytes_before(vstd::utf8::encode_utf8(a@), vstd::utf8::encode_utf8(b@)),
{
}

/// `same` says whether two texts have the same characters.
pub proof fn law_same(a: &str, b: &str, r: bool)
    requires
        call_ensures(text::same, (a, b), r),
    ensures
        r == (a@ == b@),
{
}

} // verus!
