//! Laws of reading what the commands printed: the answer of `qstat`, balances, rates, the time
//! zone and the width.

use crate::json::{Json, JsonView};
use crate::pbs::{PointRow, Snapshot, State};
use crate::digits;
use crate::job_laws;
use crate::json;
use crate::pbs;
use crate::text;
use crate::text_laws;
use vstd::prelude::*;

verus! {

// ---------------------------------------------------------------------------
// the answer of qstat
// ---------------------------------------------------------------------------

/// An answer with jobs is a snapshot whatever was complained of, with one job for each member,
/// in their order, under its id.
pub proof fn law_snapshot(
    root: &Json,
    stderr: &str,
    history: bool,
    ids_given: bool,
    tz: i64,
    r: Result<Snapshot, String>,
    m: Seq<(Seq<char>, JsonView)>,
)
    requires
        call_ensures(pbs::read_snapshot, (root, stderr, history, ids_given, tz), r),
        job_laws::has(root@, "Jobs"@, JsonView::Object(m)),
        m.len() > 0,
    ensures
        r is Ok,
        r->Ok_0.jobs@.len() == m.len(),
        forall|i: int|
            0 <= i < m.len() ==> (#[trigger] r->Ok_0.jobs@[i]).id@ == m[i].0 && pbs::describes(
                m[i].1,
                m[i].0,
                tz as int,
                r->Ok_0.jobs@[i],
            ),
{
    job_laws::law_member(root@, "Jobs"@);
}

/// What an answer says of the server and of the time.
pub proof fn law_snapshot_head(
    root: &Json,
    stderr: &str,
    history: bool,
    ids_given: bool,
    tz: i64,
    snap: Snapshot,
    name: Seq<char>,
)
    requires
        call_ensures(pbs::read_snapshot, (root, stderr, history, ids_given, tz), Ok(snap)),
    ensures
        job_laws::has(root@, "pbs_server"@, JsonView::Text(name)) ==> snap.server@ == name,
        job_laws::lacks(root@, "pbs_server"@) ==> snap.server@ == seq!['p', 'b', 's'],
        job_laws::lacks(root@, "timestamp"@) ==> snap.timestamp == 0,
{
    job_laws::law_member(root@, "pbs_server"@);
    job_laws::law_member(root@, "timestamp"@);
    reveal_strlit("pbs");
}

/// An answer without jobs is a snapshot without jobs where nothing was complained of, and else
/// the complaint; behind which stands how to ask for finished jobs exactly where jobs were named
/// and history was not asked for.
pub proof fn law_no_jobs(
    root: &Json,
    stderr: &str,
    history: bool,
    ids_given: bool,
    tz: i64,
    r: Result<Snapshot, String>,
)
    requires
        call_ensures(pbs::read_snapshot, (root, stderr, history, ids_given, tz), r),
        job_laws::lacks(root@, "Jobs"@) || job_laws::has(root@, "Jobs"@, JsonView::Object(seq![])),
    ensures
        text_laws::blank(stderr@) ==> r is Ok && r->Ok_0.jobs@.len() == 0,
        !text_laws::blank(stderr@) ==> r is Err,
        r matches Err(e) ==> if ids_given && !history {
            e@ == text::trimmed(stderr@) + "\n       finished jobs need history: re-run with -x"@
        } else {
            e@ == text::trimmed(stderr@)
        },
{
    job_laws::law_member(root@, "Jobs"@);
    lemma_blank(stderr@);
}

/// Of white space alone nothing is left, and of nothing else.
pub(crate) proof fn lemma_blank(s: Seq<char>)
    ensures
        text_laws::blank(s) <==> text::trimmed(s).len() == 0,
{
    if text_laws::blank(s) {
        text_laws::law_words(s, seq!['a'], Seq::empty());
        lemma_blank_start(s);
    } else {
        let i = choose|i: int| 0 <= i < s.len() && !text::is_space(#[trigger] s[i]);
        lemma_kept(s, i);
    }
}

/// Nothing is left of white space.
proof fn lemma_blank_start(s: Seq<char>)
    requires
        text_laws::blank(s),
    ensures
        text::trimmed_start(s).len() == 0,
    decreases s.len(),
{
    if s.len() > 0 {
        assert(text::is_space(s[0]));
        assert forall|i: int| 0 <= i < s.skip(1).len() implies text::is_space(#[trigger] s.skip(1)[i]) by {
            assert(s.skip(1)[i] == s[i + 1]);
        }
        lemma_blank_start(s.skip(1));
    }
}

/// What is no white space stays.
proof fn lemma_kept(s: Seq<char>, i: int)
    requires
        0 <= i < s.len(),
        !text::is_space(s[i]),
    ensures
        text::trimmed(s).len() > 0,
    decreases s.len(),
{
    if text::is_space(s[0]) {
        assert(s.skip(1)[i - 1] == s[i]);
        lemma_kept(s.skip(1), i - 1);
    } else {
        lemma_kept_end(s);
    }
}

/// What is no white space in front stays.
proof fn lemma_kept_end(s: Seq<char>)
    requires
        s.len() > 0,
        !text::is_space(s[0]),
    ensures
        text::trimmed_end(s).len() > 0,
    decreases s.len(),
{
    if text::is_space(s.last()) {
        assert(s.drop_last()[0] == s[0]);
        lemma_kept_end(s.drop_last());
    }
}

/// Where `qstat` printed nothing, its complaint is the error, or a message where it has none;
/// what is no JSON is an error; and else it is the answer that the document gives.
pub proof fn law_fetch(
    stdout: &[u8],
    stderr: &[u8],
    history: bool,
    ids: &Vec<String>,
    tz: i64,
    r: Result<Snapshot, String>,
)
    requires
        call_ensures(pbs::fetch, (stdout, stderr, history, ids, tz), r),
    ensures
        ({
            let out = text::utf8_lossy(stdout@);
            let err = text::utf8_lossy(stderr@);
            &&& text_laws::blank(out) ==> r is Err
            &&& text_laws::blank(out) && text_laws::blank(err) ==> r->Err_0@ == "qstat returned nothing"@
            &&& text_laws::blank(out) && !text_laws::blank(err) ==> r->Err_0@ == text::trimmed(err)
            &&& !text_laws::blank(out) && json::json_read(out) is Err ==> r is Err
            &&& !text_laws::blank(out) && (json::json_read(out) matches Ok(root)
                && exists|m: Seq<(Seq<char>, JsonView)>|
                m.len() > 0 && #[trigger] job_laws::has(root, "Jobs"@, JsonView::Object(m))) ==> r is Ok
        }),
{
    let out = text::utf8_lossy(stdout@);
    let err = text::utf8_lossy(stderr@);
    lemma_blank(out);
    lemma_blank(err);
    if let Ok(root) = json::json_read(out) {
        job_laws::law_member(root, "Jobs"@);
    }
}

/// The arguments of `qstat`: `-f -F json`, `-x` exactly where history is asked for, and the ids.
pub proof fn law_qstat_args(history: bool, ids: &Vec<String>, r: Vec<String>)
    requires
        call_ensures(pbs::qstat_args, (history, ids), r),
    ensures
        ({
            let n: int = if history { 4 } else { 3 };
            &&& r@.len() == n + ids@.len()
            &&& r@[0]@ == seq!['-', 'f']
            &&& r@[1]@ == seq!['-', 'F']
            &&& r@[2]@ == seq!['j', 's', 'o', 'n']
            &&& history ==> r@[3]@ == seq!['-', 'x']
            &&& forall|i: int| 0 <= i < ids@.len() ==> #[trigger] ids@[i]@ == r@[n + i]@
        }),
{
    reveal_strlit("-f");
    reveal_strlit("-F");
    reveal_strlit("json");
    reveal_strlit("-x");
    let n: int = if history { 4 } else { 3 };
    let t = text::texts(r@);
    assert(t.len() == r@.len());
    assert(t[0] == r@[0]@ && t[1] == r@[1]@ && t[2] == r@[2]@);
    assert(history ==> t[3] == r@[3]@);
    assert forall|i: int| 0 <= i < ids@.len() implies #[trigger] ids@[i]@ == r@[n + i]@ by {
        assert(t[n + i] == text::texts(ids@)[i]);
    }
}

// ---------------------------------------------------------------------------
// states
// ---------------------------------------------------------------------------

/// The state that a letter of PBS stands for, and no other letter.
pub proof fn law_state_code(c: &str, r: State)
    requires
        call_ensures(State::from_code, (c,), r),
    ensures
        r == State::Running <==> c@ == seq!['R'],
        r == State::Queued <==> c@ == seq!['Q'],
        r == State::Held <==> c@ == seq!['H'],
        r == State::Waiting <==> c@ == seq!['W'],
        r == State::Exiting <==> c@ == seq!['E'],
        r == State::Finished <==> c@ == seq!['F'],
        r == State::Suspended <==> c@ == seq!['S'] || c@ == seq!['T'] || c@ == seq!['U'],
{
    reveal_strlit("R");
    reveal_strlit("Q");
    reveal_strlit("H");
    reveal_strlit("W");
    reveal_strlit("E");
    reveal_strlit("F");
    reveal_strlit("S");
    reveal_strlit("T");
    reveal_strlit("U");
    assert("R"@ == seq!['R']);
    assert("Q"@ == seq!['Q']);
    assert("H"@ == seq!['H']);
    assert("W"@ == seq!['W']);
    assert("E"@ == seq!['E']);
    assert("F"@ == seq!['F']);
    assert("S"@ == seq!['S']);
    assert("T"@ == seq!['T']);
    assert("U"@ == seq!['U']);
    assert(c@.len() == 1 ==> c@ == seq![c@[0]]);
}

// ---------------------------------------------------------------------------
// balances and rates
// ---------------------------------------------------------------------------

/// A line of `show_point` gives no row where it is indented or empty, has fewer than six fields,
/// or is the heading; else its group, its points used and its points granted: its first, fourth
/// and fifth field, without commas.
pub proof fn law_point_row(line: Seq<char>)
    ensures
        ({
            let f = text::words(line);
            let row = pbs::point_row(line);
            &&& line.len() == 0 ==> row is None
            &&& line.len() > 0 && text::is_space(line[0]) ==> row is None
            &&& f.len() < 6 ==> row is None
            &&& f.len() > 0 && f[0] == seq!['G', 'r', 'o', 'u', 'p'] ==> row is None
            &&& line.len() > 0 && !text::is_space(line[0]) && f.len() >= 6 && f[0] != seq!['G', 'r', 'o', 'u', 'p']
                ==> row == Some(
                (f[0], f[3].filter(|x: char| x != ','), f[4].filter(|x: char| x != ',')),
            )
        }),
{
    reveal_strlit("Group");
    let f = text::words(line);
    assert("Group"@ == seq!['G', 'r', 'o', 'u', 'p']);
    if line.len() > 0 && !text::is_space(line[0]) {
        lemma_kept(line, 0);
    }
    if f.len() >= 6 {
        text_laws::lemma_without(f[3], ',');
        text_laws::lemma_without(f[4], ',');
    }
}

/// The rows are those of the lines, in their order.
pub proof fn law_point_rows(lines: Seq<Seq<char>>, line: Seq<char>)
    ensures
        pbs::point_rows(Seq::empty()).len() == 0,
        pbs::point_row(line) is None ==> pbs::point_rows(lines.push(line)) == pbs::point_rows(lines),
        pbs::point_row(line) matches Some(row) ==> pbs::point_rows(lines.push(line)) == pbs::point_rows(
            lines,
        ).push(row),
{
    assert(lines.push(line).drop_last() == lines);
}

/// `read_points` reads the rows of a text.
pub proof fn law_read_points(t: &str, r: Vec<PointRow>)
    requires
        call_ensures(pbs::read_points, (t,), r),
    ensures
        r@.len() == pbs::point_rows(text::text_lines(t@)).len(),
        forall|i: int|
            0 <= i < r@.len() ==> {
                let row = pbs::point_rows(text::text_lines(t@))[i];
                (#[trigger] r@[i]).group@ == row.0 && r@[i].used@ == row.1 && r@[i].granted@ == row.2
            },
{
    let rows = r@.map_values(|p: PointRow| pbs::row_texts(p));
    assert forall|i: int| 0 <= i < r@.len() implies ({
        let row = pbs::point_rows(text::text_lines(t@))[i];
        (#[trigger] r@[i]).group@ == row.0 && r@[i].used@ == row.1 && r@[i].granted@ == row.2
    }) by {
        assert(rows[i] == pbs::row_texts(r@[i]));
    }
}

/// An override names a type before its equals sign and a rate behind it; what has no equals sign
/// names nothing.
pub proof fn law_override_pair(pairs: Seq<Seq<char>>, name: Seq<char>, rate: Seq<char>)
    requires
        text_laws::free_of(name, '='),
    ensures
        pbs::override_pairs(pairs.push(name)) == pbs::override_pairs(pairs),
        pbs::override_pairs(pairs.push(name + seq!['='] + rate)) == pbs::override_pairs(pairs).push(
            (text::trimmed(name), text::trimmed(rate)),
        ),
{
    let p = name + seq!['='] + rate;
    assert(pairs.push(name).drop_last() == pairs);
    assert(pairs.push(p).drop_last() == pairs);
    text::lemma_first_at(name, '=');
    text::lemma_first_at(p, '=');
    assert(p[name.len() as int] == '=');
    assert forall|i: int| 0 <= i < name.len() implies p[i] != '=' by {
        assert(p[i] == name[i]);
    }
    assert(text::first_at(p, '=') == name.len());
    assert(p.take(name.len() as int) == name);
    assert(p.skip(name.len() as int + 1) == rate);
}

/// `rate_overrides` reads the pairs between the commas of a text.
pub proof fn law_rate_overrides(spec_text: &str, r: Vec<(String, String)>)
    requires
        call_ensures(pbs::rate_overrides, (spec_text,), r),
    ensures
        pbs::text_pairs(r@) == pbs::override_pairs(text::pieces(spec_text@, ',')),
{
}

// ---------------------------------------------------------------------------
// the time zone and the width
// ---------------------------------------------------------------------------

/// A sign, two digits of hours and two digits of minutes say how far east of Greenwich it is, or
/// how far west with a minus sign.
pub proof fn law_offset(z: &str, r: i64)
    requires
        call_ensures(pbs::parse_offset, (z,), r),
        z@.len() == 5,
        z@[0] == '+' || z@[0] == '-',
        forall|i: int| 1 <= i < 5 ==> digits::is_digit(#[trigger] z@[i]),
    ensures
        ({
            let h = (z@[1] as int - 48) * 10 + (z@[2] as int - 48);
            let m = (z@[3] as int - 48) * 10 + (z@[4] as int - 48);
            &&& z@[0] == '+' ==> r == h * 3600 + m * 60
            &&& z@[0] == '-' ==> r == -(h * 3600 + m * 60)
        }),
{
    let c = z@;
    assert(digits::is_digit(c[1]) && digits::is_digit(c[2]) && digits::is_digit(c[3]) && digits::is_digit(
        c[4],
    ));
    assert(vstd::utf8::is_ascii_chars(c));
    vstd::utf8::is_ascii_chars_encode_utf8(c);
    let b = vstd::utf8::encode_utf8(c);
    lemma_two_digits(c, b, 1);
    lemma_two_digits(c, b, 3);
}

/// Two digits of a text in ASCII write their number.
proof fn lemma_two_digits(c: Seq<char>, b: Seq<u8>, i: int)
    requires
        vstd::utf8::is_ascii_chars(c),
        b == vstd::utf8::encode_utf8(c),
        0 <= i,
        i + 2 <= c.len(),
        digits::is_digit(c[i]),
        digits::is_digit(c[i + 1]),
    ensures
        pbs::number_at(c, i, i + 2) == (c[i] as int - 48) * 10 + (c[i + 1] as int - 48),
{
    vstd::utf8::is_ascii_chars_encode_utf8(c);
    let d = c.subrange(i, i + 2);
    assert(vstd::utf8::is_ascii_chars(d));
    vstd::utf8::is_ascii_chars_encode_utf8(d);
    assert(b.subrange(i, i + 2) == vstd::utf8::encode_utf8(d));
    vstd::utf8::encode_utf8_decode_utf8(d);
    assert(digits::is_digit(d[0]) && digits::is_digit(d[1]));
    assert(digits::all_digits(d));
    reveal_with_fuel(digits::digits_value, 3);
    assert(d.drop_last().drop_last() == Seq::<char>::empty());
    assert(digits::digits_value(d.drop_last()) == d[0] as int - 48);
    assert(digits::digits_value(d) == (d[0] as int - 48) * 10 + (d[1] as int - 48));
}

/// What is shorter than five characters says no offset.
pub proof fn law_no_offset(z: &str, r: i64)
    requires
        call_ensures(pbs::parse_offset, (z,), r),
        vstd::utf8::is_ascii_chars(z@),
        z@.len() < 5,
    ensures
        r == 0,
{
    vstd::utf8::is_ascii_chars_encode_utf8(z@);
}

/// The width is the second of the numbers that a terminal says, where it is at least 40, and else
/// 100.
pub proof fn law_width(size: &str, r: usize, rows: Seq<char>, n: nat, rest: Seq<char>)
    requires
        call_ensures(pbs::read_width, (size,), r),
        text_laws::solid(rows),
        rows.len() > 0,
        rest.len() > 0 ==> text::is_space(rest[0]),
        n <= usize::MAX,
        size@ == rows + seq![' '] + digits::decimal(n) + rest,
    ensures
        r == if n >= 40 { n as int } else { 100 },
{
    let d = digits::decimal(n);
    digits::lemma_decimal_digits(n);
    assert forall|i: int| 0 <= i < d.len() implies !text::is_space(#[trigger] d[i]) by {
        assert(digits::is_digit(d[i]));
    }
    let behind = seq![' '] + d + rest;
    assert(size@ == Seq::<char>::empty() + rows + behind);
    text_laws::law_words(Seq::empty(), rows, behind);
    text_laws::law_words(seq![' '], d, rest);
    digits::law_read_back(n, usize::MAX as nat);
    assert(text::words(size@)[1] == d);
}

/// Where a terminal says fewer than two things, the width is 100.
pub proof fn law_no_width(size: &str, r: usize)
    requires
        call_ensures(pbs::read_width, (size,), r),
        text::words(size@).len() < 2,
    ensures
        r == 100,
{
}

} // verus!
