//! Texts without control sequences of the terminal.

use crate::footer::{Balance, Totals};
use crate::pbs::{Job, State};
use crate::reals::{Figure, Fill, Real, Share};
use crate::table::Cols;
use crate::view::{Entry, Viewport};
use crate::card;
use crate::digits;
use crate::fmt;
use crate::footer;
use crate::groups;
use crate::logtext;
use crate::paint;
use crate::pbs;
use crate::table;
use crate::text;
use crate::view;
use vstd::prelude::*;

verus! {

/// Does a text hold no control sequence? Each starts with the escape character.
pub open spec fn is_plain(s: Seq<char>) -> bool {
    !s.contains('\x1b')
}

/// Are all of the texts plain?
pub open spec fn all_plain(parts: Seq<Seq<char>>) -> bool {
    forall|i: int| 0 <= i < parts.len() ==> is_plain(#[trigger] parts[i])
}

/// Is a text plain, where there is one?
pub open spec fn opt_plain(s: Option<String>) -> bool {
    s matches Some(t) ==> is_plain(t@)
}

/// Are the notations of a figure plain?
pub open spec fn figure_plain(f: Figure) -> bool {
    is_plain(f.whole@) && is_plain(f.tenth@)
}

/// Are the notations of a share plain?
pub open spec fn share_plain(s: Share) -> bool {
    is_plain(s.percent@) && is_plain(s.percent_tenth@)
}

/// Are the texts of a job plain that are shown of it?
pub open spec fn job_plain(j: Job) -> bool {
    &&& is_plain(j.id@)
    &&& is_plain(j.short_id@)
    &&& is_plain(j.name@)
    &&& is_plain(j.queue@)
    &&& is_plain(j.group@)
    &&& is_plain(j.service@)
    &&& opt_plain(j.rtype)
    &&& is_plain(j.mem_req@)
    &&& all_plain(text::texts(j.nodes@))
    &&& opt_plain(j.log_path)
    &&& opt_plain(j.est_start)
    &&& opt_plain(j.comment)
    &&& opt_plain(j.submit_args)
}

/// Are the texts of a job and of its figures plain?
pub open spec fn entry_plain(e: Entry) -> bool {
    &&& job_plain(*e.job)
    &&& share_plain(e.share)
    &&& figure_plain(e.rate)
    &&& figure_plain(e.spent)
    &&& figure_plain(e.reserved)
    &&& e.load matches Some(l) ==> is_plain(l.percent@) && is_plain(l.cores@)
}

/// Are the texts of all jobs plain?
pub open spec fn entries_plain(entries: Seq<Entry>) -> bool {
    forall|i: int| 0 <= i < entries.len() ==> entry_plain(#[trigger] entries[i])
}

// ---------------------------------------------------------------------------
// pieces of texts
// ---------------------------------------------------------------------------

/// An empty text is plain.
pub broadcast proof fn lemma_empty()
    ensures
        #[trigger] is_plain(Seq::empty()),
{
}

/// Plain texts in a row are plain.
pub broadcast proof fn lemma_concat(a: Seq<char>, b: Seq<char>)
    requires
        is_plain(a),
        is_plain(b),
    ensures
        #[trigger] is_plain(a + b),
{
    assert forall|i: int| 0 <= i < (a + b).len() implies (a + b)[i] != '\x1b' by {
        if i < a.len() {
            assert(a.contains(a[i]));
        } else {
            assert(b.contains(b[i - a.len()]));
        }
    }
}

/// A part of a plain text is plain.
pub proof fn lemma_part(s: Seq<char>, from: int, to: int)
    requires
        is_plain(s),
        0 <= from <= to <= s.len(),
    ensures
        is_plain(s.subrange(from, to)),
{
    assert forall|i: int| 0 <= i < to - from implies s.subrange(from, to)[i] != '\x1b' by {
        assert(s.contains(s[from + i]));
    }
}

/// A plain text with one more character is plain.
pub proof fn lemma_push(s: Seq<char>, c: char)
    requires
        is_plain(s),
        c != '\x1b',
    ensures
        is_plain(s.push(c)),
{
    assert forall|i: int| 0 <= i <= s.len() implies s.push(c)[i] != '\x1b' by {
        if i < s.len() {
            assert(s.contains(s[i]));
        }
    }
}

/// Numbers are plain.
pub broadcast proof fn lemma_decimal(n: nat)
    ensures
        #[trigger] is_plain(digits::decimal(n)),
    decreases n,
{
    if n >= 10 {
        lemma_decimal(n / 10);
        lemma_push(digits::decimal(n / 10), digits::digit((n % 10) as int));
    }
}

/// Numbers of two digits are plain.
pub broadcast proof fn lemma_two_digits(n: nat)
    ensures
        #[trigger] is_plain(digits::two_digits(n)),
{
    broadcast use {lemma_concat, lemma_decimal};

    reveal_strlit("0");
}

/// Numbers with a sign are plain.
pub broadcast proof fn lemma_signed_decimal(n: int)
    ensures
        #[trigger] is_plain(digits::signed_decimal(n)),
{
    broadcast use {lemma_concat, lemma_decimal};

    reveal_strlit("-");
}

/// A shortened plain text is plain.
pub broadcast proof fn lemma_ellipsized(s: Seq<char>, max: nat)
    requires
        is_plain(s),
    ensures
        #[trigger] is_plain(fmt::ellipsized(s, max)),
{
    if 0 < max < s.len() {
        lemma_part(s, 0, max - 1);
        lemma_push(s.take(max - 1), '…');
    }
}

/// A plain text that is shortened from the front is plain.
pub broadcast proof fn lemma_ellipsized_front(s: Seq<char>, max: int)
    requires
        is_plain(s),
    ensures
        #[trigger] is_plain(logtext::ellipsized_front(s, max)),
{
    if 0 < max < s.len() {
        lemma_part(s, s.len() - (max - 1), s.len() as int);
    }
}

/// A plain text that is filled up is plain.
pub broadcast proof fn lemma_padded(s: Seq<char>, width: nat)
    requires
        is_plain(s),
    ensures
        #[trigger] is_plain(fmt::padded(s, width)),
{
    broadcast use lemma_concat;

    if s.len() < width {
        assert(is_plain(text::repeated(' ', (width - s.len()) as nat)));
    }
}

/// A plain text that is filled up from the front is plain.
pub broadcast proof fn lemma_right_aligned(s: Seq<char>, width: nat)
    requires
        is_plain(s),
    ensures
        #[trigger] is_plain(fmt::right_aligned(s, width)),
{
    broadcast use lemma_concat;

    if s.len() < width {
        assert(is_plain(text::repeated(' ', (width - s.len()) as nat)));
    }
}

/// A plain cell of a table is plain.
pub broadcast proof fn lemma_cell(s: Seq<char>, width: nat)
    requires
        is_plain(s),
    ensures
        #[trigger] is_plain(table::cell(s, width)),
{
    broadcast use {lemma_ellipsized, lemma_padded};

}

/// A plain text without white space at its end is plain.
pub broadcast proof fn lemma_trimmed_end(s: Seq<char>)
    requires
        is_plain(s),
    ensures
        #[trigger] is_plain(text::trimmed_end(s)),
    decreases s.len(),
{
    if s.len() > 0 && text::is_space(s.last()) {
        lemma_part(s, 0, s.len() - 1);
        lemma_trimmed_end(s.drop_last());
    }
}

/// Without colours, a plain text stays plain.
pub broadcast proof fn lemma_painted(code: Seq<char>, s: Seq<char>)
    requires
        is_plain(s),
    ensures
        #[trigger] is_plain(paint::painted(false, code, s)),
{
}

/// Without colours, a plain text stays plain.
pub broadcast proof fn lemma_dimmed(s: Seq<char>)
    requires
        is_plain(s),
    ensures
        #[trigger] is_plain(paint::dimmed(false, s)),
{
}

/// Plain texts, and one more.
pub broadcast proof fn lemma_push_part(parts: Seq<Seq<char>>, s: Seq<char>)
    requires
        all_plain(parts),
        is_plain(s),
    ensures
        #[trigger] all_plain(parts.push(s)),
{
}

/// No texts are plain.
pub broadcast proof fn lemma_no_parts()
    ensures
        #[trigger] all_plain(Seq::empty()),
{
}

/// Joined plain texts are plain.
pub broadcast proof fn lemma_joined(parts: Seq<Seq<char>>, sep: Seq<char>)
    requires
        all_plain(parts),
        is_plain(sep),
    ensures
        #[trigger] is_plain(text::joined(parts, sep)),
    decreases parts.len(),
{
    broadcast use lemma_concat;

    if parts.len() > 1 {
        assert(all_plain(parts.drop_last()));
        lemma_joined(parts.drop_last(), sep);
    } else if parts.len() == 1 {
        assert(is_plain(parts[0]));
    }
}

pub broadcast group group_pieces {
    lemma_empty,
    lemma_concat,
    lemma_decimal,
    lemma_two_digits,
    lemma_signed_decimal,
    lemma_ellipsized,
    lemma_ellipsized_front,
    lemma_padded,
    lemma_right_aligned,
    lemma_cell,
    lemma_trimmed_end,
    lemma_painted,
    lemma_dimmed,
    lemma_push_part,
    lemma_no_parts,
    lemma_joined,
}

// ---------------------------------------------------------------------------
// notations
// ---------------------------------------------------------------------------

/// Durations to the minute are plain.
pub broadcast proof fn lemma_hm(secs: nat)
    ensures
        #[trigger] is_plain(fmt::hm_text(secs)),
{
    broadcast use group_pieces;

    reveal_strlit(":");
}

/// Durations to the second are plain.
pub broadcast proof fn lemma_hms(secs: nat)
    ensures
        #[trigger] is_plain(fmt::hms_text(secs)),
{
    broadcast use group_pieces;

    reveal_strlit(":");
}

/// Distances in time are plain.
pub broadcast proof fn lemma_until(secs: int)
    ensures
        #[trigger] is_plain(fmt::until_text(secs)),
{
    broadcast use group_pieces;

    reveal_strlit("d ");
    reveal_strlit("h ");
    reveal_strlit("h");
    reveal_strlit("m");
}

/// Sizes are plain.
pub broadcast proof fn lemma_size(kb: int)
    ensures
        #[trigger] is_plain(fmt::size_text(kb)),
{
    broadcast use group_pieces;

    reveal_strlit(" ");
    reveal_strlit(".");
    reveal_strlit("KiB");
    reveal_strlit("MiB");
    reveal_strlit("GiB");
    reveal_strlit("TiB");
}

/// Times of day are plain.
pub broadcast proof fn lemma_clock(epoch: int, tz: int)
    ensures
        #[trigger] is_plain(fmt::clock_text(epoch, tz)),
{
    broadcast use group_pieces;

    reveal_strlit(":");
}

/// Dates are plain.
pub broadcast proof fn lemma_datetime(epoch: int, tz: int)
    ensures
        #[trigger] is_plain(fmt::datetime_text(epoch, tz)),
{
    broadcast use group_pieces;

    reveal_strlit(" ");
    reveal_strlit(":");
    reveal_strlit("Jan");
    reveal_strlit("Feb");
    reveal_strlit("Mar");
    reveal_strlit("Apr");
    reveal_strlit("May");
    reveal_strlit("Jun");
    reveal_strlit("Jul");
    reveal_strlit("Aug");
    reveal_strlit("Sep");
    reveal_strlit("Oct");
    reveal_strlit("Nov");
    reveal_strlit("Dec");
}

/// A plain text with separators is plain.
pub broadcast proof fn lemma_grouped(s: Seq<char>)
    requires
        is_plain(s),
    ensures
        #[trigger] is_plain(fmt::grouped(s)),
    decreases s.len(),
{
    broadcast use group_pieces;

    if s.len() > 3 {
        lemma_part(s, 0, s.len() - 3);
        lemma_part(s, s.len() - 3, s.len() as int);
        lemma_grouped(s.take(s.len() - 3));
        reveal_strlit(",");
    }
}

/// A plain text without zero tenths is plain.
proof fn lemma_without_zero_tenth(s: Seq<char>)
    requires
        is_plain(s),
    ensures
        is_plain(fmt::without_zero_tenth(s)),
    decreases s.len(),
{
    if s.len() >= 2 && s.skip(s.len() - 2) == seq!['.', '0'] {
        lemma_part(s, 0, s.len() - 2);
        lemma_without_zero_tenth(s.take(s.len() - 2));
    }
}

/// Figures without a zero decimal are plain.
pub broadcast proof fn lemma_trimmed_figure(f: Figure)
    requires
        figure_plain(f),
    ensures
        #[trigger] is_plain(view::trimmed_figure(f)),
{
}

/// Points are plain.
pub broadcast proof fn lemma_points(f: Figure)
    requires
        figure_plain(f),
    ensures
        #[trigger] is_plain(fmt::points_text(f)),
{
    broadcast use {group_pieces, lemma_commas};

    lemma_without_zero_tenth(f.tenth@);
}

/// Counts with separators are plain.
pub broadcast proof fn lemma_commas(f: Figure)
    ensures
        #[trigger] is_plain(fmt::commas_text(f)),
{
    broadcast use {group_pieces, lemma_grouped};

    reveal_strlit("-");
}

/// Bars are plain.
pub broadcast proof fn lemma_bar(fill: Fill, width: nat, ascii: bool)
    ensures
        #[trigger] is_plain(fmt::bar_text(fill, width, ascii)),
{
    broadcast use group_pieces;

    let full = fmt::least(fill.eighths as int / 8, width as int) as nat;
    let rem = fill.eighths as int % 8;
    assert(forall|n: nat| #[trigger] is_plain(text::repeated('#', n)));
    assert(forall|n: nat| #[trigger] is_plain(text::repeated('-', n)));
    assert(forall|n: nat| #[trigger] is_plain(text::repeated('█', n)));
    assert(forall|n: nat| #[trigger] is_plain(text::repeated('░', n)));
    lemma_push(text::repeated('█', full), fmt::partial(rem));
}

/// Without colours, bars with their ends are plain.
pub broadcast proof fn lemma_bar_cell(v: Viewport, share: Real, fill: Fill, width: nat)
    requires
        !v.color,
    ensures
        #[trigger] is_plain(view::bar_cell_text(v, share, fill, width)),
{
    broadcast use {group_pieces, lemma_bar};

    reveal_strlit("[");
    reveal_strlit("▕");
    reveal_strlit("]");
    reveal_strlit("▏");
}

/// The mark before a state is plain.
pub broadcast proof fn lemma_bullet(ascii: bool)
    ensures
        #[trigger] is_plain(view::bullet_text(ascii)),
{
    reveal_strlit("*");
    reveal_strlit("●");
}

/// The mark before a warning is plain.
pub broadcast proof fn lemma_warn(ascii: bool)
    ensures
        #[trigger] is_plain(view::warn_text(ascii)),
{
    reveal_strlit("!");
    reveal_strlit("⚠");
}

/// Without colours, separators are plain.
pub broadcast proof fn lemma_sep(v: Viewport)
    requires
        !v.color,
    ensures
        #[trigger] is_plain(view::sep_text(v)),
{
    broadcast use group_pieces;

    reveal_strlit(" | ");
    reveal_strlit(" · ");
}

/// The names of states are plain.
pub broadcast proof fn lemma_state_label(s: State)
    ensures
        #[trigger] is_plain(pbs::state_label(s)),
{
    reveal_strlit("running");
    reveal_strlit("queued");
    reveal_strlit("held");
    reveal_strlit("waiting");
    reveal_strlit("exiting");
    reveal_strlit("finished");
    reveal_strlit("suspended");
    reveal_strlit("unknown");
}

/// The codes of states are plain.
pub broadcast proof fn lemma_state_code(s: State)
    ensures
        #[trigger] is_plain(pbs::state_code(s)),
{
    reveal_strlit("R");
    reveal_strlit("Q");
    reveal_strlit("H");
    reveal_strlit("W");
    reveal_strlit("E");
    reveal_strlit("F");
    reveal_strlit("S");
    reveal_strlit("?");
}

/// The resource types of plain jobs are plain.
pub broadcast proof fn lemma_resource(t: Option<String>, nodect: u64)
    requires
        opt_plain(t),
    ensures
        #[trigger] is_plain(pbs::resource_text(pbs::opt_text(t), nodect)),
{
    broadcast use group_pieces;

    reveal_strlit("×");
    reveal_strlit("-");
}

/// The sizes of files are plain.
pub broadcast proof fn lemma_bytes(b: int)
    ensures
        #[trigger] is_plain(logtext::bytes_text(b)),
{
    broadcast use {group_pieces, lemma_size};

    reveal_strlit(" B");
}

/// Times that have passed are plain.
pub broadcast proof fn lemma_ago(elapsed: Option<u64>)
    ensures
        #[trigger] is_plain(logtext::ago_text(elapsed)),
{
    broadcast use {group_pieces, lemma_until};

    reveal_strlit("s");
    reveal_strlit("h");
    reveal_strlit("0s");
}

pub broadcast group group_plain {
    group_pieces,
    lemma_hm,
    lemma_hms,
    lemma_until,
    lemma_size,
    lemma_clock,
    lemma_datetime,
    lemma_grouped,
    lemma_trimmed_figure,
    lemma_points,
    lemma_commas,
    lemma_bar,
    lemma_bar_cell,
    lemma_bullet,
    lemma_warn,
    lemma_sep,
    lemma_state_label,
    lemma_state_code,
    lemma_resource,
    lemma_bytes,
    lemma_ago,
}

// ---------------------------------------------------------------------------
// the lines of a listing
// ---------------------------------------------------------------------------

/// Without colours, the line above the table is plain.
pub proof fn lemma_table_header(c: Cols, name_w: nat, v: Viewport)
    requires
        !v.color,
    ensures
        is_plain(table::table_header_text(c, name_w, v)),
{
    broadcast use group_plain;

    assert(is_plain(" "@)) by {
        reveal_strlit(" ");
    }
    assert(is_plain("ID"@)) by {
        reveal_strlit("ID");
    }
    assert(is_plain(""@)) by {
        reveal_strlit("");
    }
    assert(is_plain("NAME"@)) by {
        reveal_strlit("NAME");
    }
    assert(is_plain("TYPE"@)) by {
        reveal_strlit("TYPE");
    }
    assert(is_plain("GPU"@)) by {
        reveal_strlit("GPU");
    }
    assert(is_plain("WALLTIME"@)) by {
        reveal_strlit("WALLTIME");
    }
    assert(is_plain("%"@)) by {
        reveal_strlit("%");
    }
    assert(is_plain("USED/REQ"@)) by {
        reveal_strlit("USED/REQ");
    }
    assert(is_plain("GROUP"@)) by {
        reveal_strlit("GROUP");
    }
    assert(is_plain("POINTS"@)) by {
        reveal_strlit("POINTS");
    }
    assert(is_plain("NODE"@)) by {
        reveal_strlit("NODE");
    }
    assert(is_plain("\n"@)) by {
        reveal_strlit("\n");
    }
}

/// The cells of a plain job are plain.
proof fn lemma_cells(e: Entry, groups: Seq<Seq<char>>, v: Viewport)
    requires
        !v.color,
        entry_plain(e),
    ensures
        is_plain(table::gpu_text(*e.job)),
        is_plain(table::walltime_cell(e, v)),
        is_plain(table::percent_cell(e, v)),
        is_plain(table::time_text(*e.job)),
        is_plain(table::points_pair(e, v)),
        is_plain(table::node_text(text::texts(e.job.nodes@))),
        is_plain(table::group_cell(e.job.group@, groups, v)),
{
    broadcast use group_plain;

    reveal_strlit("-");
    reveal_strlit(" ");
    reveal_strlit("  ");
    reveal_strlit("%");
    reveal_strlit("/");
    reveal_strlit("-/");
    reveal_strlit("0/");
    reveal_strlit("+");
    let nodes = text::texts(e.job.nodes@);
    if nodes.len() > 0 {
        assert(is_plain(nodes[0]));
    }
}

/// Without colours, the line of a plain job is plain.
pub proof fn lemma_row(e: Entry, c: Cols, name_w: nat, groups: Seq<Seq<char>>, v: Viewport)
    requires
        !v.color,
        entry_plain(e),
    ensures
        is_plain(table::row_text(e, c, name_w, groups, v)),
{
    broadcast use group_plain;

    lemma_cells(e, groups, v);
    reveal_strlit(" ");
    reveal_strlit("\n");
}

/// Without colours, a titled line is plain up to its text.
pub broadcast proof fn lemma_titled(v: Viewport, title: Seq<char>)
    requires
        !v.color,
        is_plain(title),
    ensures
        #[trigger] is_plain(card::titled(v, title)),
{
    broadcast use group_plain;

    reveal_strlit("   ");
    reveal_strlit(" ");
}

/// Without colours, the first lines of the card of a plain job are plain.
proof fn lemma_card_top(e: Entry, v: Viewport)
    requires
        !v.color,
        entry_plain(e),
    ensures
        is_plain(card::card_title(*e.job, v)),
        is_plain(card::resource_line(*e.job, v)),
{
    broadcast use group_plain;

    assert(is_plain(" "@)) by {
        reveal_strlit(" ");
    }
    assert(is_plain("  "@)) by {
        reveal_strlit("  ");
    }
    assert(is_plain("   "@)) by {
        reveal_strlit("   ");
    }
    assert(is_plain(" · "@)) by {
        reveal_strlit(" · ");
    }
    assert(is_plain("\n"@)) by {
        reveal_strlit("\n");
    }
    assert(is_plain(" CPU"@)) by {
        reveal_strlit(" CPU");
    }
    assert(is_plain(" GPU"@)) by {
        reveal_strlit(" GPU");
    }
    assert(is_plain(","@)) by {
        reveal_strlit(",");
    }
    assert(is_plain("charged "@)) by {
        reveal_strlit("charged ");
    }
}

/// Without colours, the lines on the walltime of a plain job are plain.
proof fn lemma_card_walltime(e: Entry, v: Viewport)
    requires
        !v.color,
        entry_plain(e),
    ensures
        is_plain(card::walltime_line(e, v)),
        is_plain(card::comment_line(*e.job, v)),
{
    broadcast use {group_plain, lemma_titled};

    assert(is_plain("walltime"@)) by {
        reveal_strlit("walltime");
    }
    assert(is_plain("why     "@)) by {
        reveal_strlit("why     ");
    }
    assert(is_plain(" "@)) by {
        reveal_strlit(" ");
    }
    assert(is_plain("  "@)) by {
        reveal_strlit("  ");
    }
    assert(is_plain("%"@)) by {
        reveal_strlit("%");
    }
    assert(is_plain(" used of "@)) by {
        reveal_strlit(" used of ");
    }
    assert(is_plain(" left"@)) by {
        reveal_strlit(" left");
    }
    assert(is_plain(" requested"@)) by {
        reveal_strlit(" requested");
    }
    assert(is_plain("no limit"@)) by {
        reveal_strlit("no limit");
    }
    assert(is_plain("\n"@)) by {
        reveal_strlit("\n");
    }
}

/// Without colours, the lines on the usage and the points of a plain job are plain.
proof fn lemma_card_usage(e: Entry, v: Viewport)
    requires
        !v.color,
        entry_plain(e),
    ensures
        is_plain(card::usage_line(e, v)),
        is_plain(card::points_line(e, v)),
{
    broadcast use {group_plain, lemma_titled};

    assert(is_plain("usage   "@)) by {
        reveal_strlit("usage   ");
    }
    assert(is_plain("cpu "@)) by {
        reveal_strlit("cpu ");
    }
    assert(is_plain("% ("@)) by {
        reveal_strlit("% (");
    }
    assert(is_plain(" of "@)) by {
        reveal_strlit(" of ");
    }
    assert(is_plain(" cores)"@)) by {
        reveal_strlit(" cores)");
    }
    assert(is_plain("mem "@)) by {
        reveal_strlit("mem ");
    }
    assert(is_plain("points  "@)) by {
        reveal_strlit("points  ");
    }
    assert(is_plain(" spent of "@)) by {
        reveal_strlit(" spent of ");
    }
    assert(is_plain(" reserved"@)) by {
        reveal_strlit(" reserved");
    }
    assert(is_plain(" pt/h"@)) by {
        reveal_strlit(" pt/h");
    }
    assert(is_plain("\n"@)) by {
        reveal_strlit("\n");
    }
}

/// Without colours, the last lines of the card of a plain job are plain.
proof fn lemma_card_rest(e: Entry, v: Viewport)
    requires
        !v.color,
        entry_plain(e),
    ensures
        is_plain(card::dates_line(*e.job, v)),
        is_plain(card::exit_line(*e.job, v)),
        is_plain(card::text_line(pbs::opt_text(e.job.log_path), "log     "@, v)),
        is_plain(card::text_line(pbs::opt_text(e.job.submit_args), "submit  "@, v)),
{
    broadcast use {group_plain, lemma_titled};

    assert(is_plain("started "@)) by {
        reveal_strlit("started ");
    }
    assert(is_plain("submitted "@)) by {
        reveal_strlit("submitted ");
    }
    assert(is_plain("queued  "@)) by {
        reveal_strlit("queued  ");
    }
    assert(is_plain("estimated start "@)) by {
        reveal_strlit("estimated start ");
    }
    assert(is_plain("exit    "@)) by {
        reveal_strlit("exit    ");
    }
    assert(is_plain("log     "@)) by {
        reveal_strlit("log     ");
    }
    assert(is_plain("submit  "@)) by {
        reveal_strlit("submit  ");
    }
    assert(is_plain("\n"@)) by {
        reveal_strlit("\n");
    }
}

/// Without colours, the card of a plain job is plain.
pub proof fn lemma_card(e: Entry, v: Viewport)
    requires
        !v.color,
        entry_plain(e),
    ensures
        is_plain(card::card_text(e, v)),
{
    broadcast use lemma_concat;

    lemma_card_top(e, v);
    lemma_card_walltime(e, v);
    lemma_card_usage(e, v);
    lemma_card_rest(e, v);
}

// ---------------------------------------------------------------------------
// what stands under a listing
// ---------------------------------------------------------------------------

/// Are the texts of the balances plain?
pub open spec fn balances_plain(balances: Seq<Balance>) -> bool {
    forall|i: int|
        0 <= i < balances.len() ==> is_plain((#[trigger] balances[i]).group@) && share_plain(
            balances[i].share,
        )
}

/// Are the notations of the sums plain?
pub open spec fn totals_plain(t: Totals) -> bool {
    figure_plain(t.burn) && figure_plain(t.spent) && figure_plain(t.reserved)
}

/// Without colours, the line of the sums is plain.
proof fn lemma_totals(t: Totals, v: Viewport)
    requires
        !v.color,
        totals_plain(t),
    ensures
        is_plain(footer::totals_line(t, v)),
{
    broadcast use group_plain;

    reveal_strlit("\n ");
    reveal_strlit(" pt spent so far · ");
    reveal_strlit(" pt reserved by these jobs");
    reveal_strlit("\n");
}

/// Without colours, the warnings of plain jobs are plain.
proof fn lemma_tight_lines(entries: Seq<Entry>, list: Seq<int>, v: Viewport)
    requires
        !v.color,
        entries_plain(entries),
        forall|i: int| 0 <= i < list.len() ==> 0 <= #[trigger] list[i] < entries.len(),
    ensures
        is_plain(footer::tight_lines(entries, list, v)),
    decreases list.len(),
{
    broadcast use group_plain;

    if list.len() > 0 {
        lemma_tight_lines(entries, list.drop_last(), v);
        let e = entries[list.last()];
        assert(entry_plain(e));
        reveal_strlit(" ");
        reveal_strlit(" at ");
        reveal_strlit("% of walltime — ");
        reveal_strlit(" left\n");
        assert(is_plain(footer::tight_line(e, v)));
    }
}

/// The balance of a group is one of the balances.
proof fn lemma_balance_of(balances: Seq<Balance>, g: Seq<char>)
    requires
        balances_plain(balances),
    ensures
        footer::balance_of(balances, g) matches Some(b) ==> is_plain(b.group@) && share_plain(b.share),
    decreases balances.len(),
{
    if balances.len() > 0 && balances[0].group@ != g {
        assert(balances_plain(balances.skip(1)));
        lemma_balance_of(balances.skip(1), g);
    }
}

/// Without colours, the line of a plain balance is plain.
proof fn lemma_balance_line(b: Balance, groups: Seq<Seq<char>>, v: Viewport)
    requires
        !v.color,
        is_plain(b.group@),
        share_plain(b.share),
    ensures
        is_plain(footer::balance_line(b, groups, v)),
{
    broadcast use group_plain;

    reveal_strlit(" ");
    reveal_strlit("  ");
    reveal_strlit("%");
    reveal_strlit(" left of ");
    reveal_strlit(" pt reserved exceeds the balance");
    reveal_strlit("\n");
}

/// Without colours, the lines of plain balances are plain.
proof fn lemma_balance_lines(
    names: Seq<Seq<char>>,
    groups: Seq<Seq<char>>,
    balances: Seq<Balance>,
    v: Viewport,
)
    requires
        !v.color,
        balances_plain(balances),
    ensures
        is_plain(footer::balance_lines(names, groups, balances, v)),
    decreases names.len(),
{
    broadcast use {lemma_concat, lemma_empty};

    if names.len() > 0 {
        lemma_balance_lines(names.drop_last(), groups, balances, v);
        lemma_balance_of(balances, names.last());
        if let Some(b) = footer::balance_of(balances, names.last()) {
            lemma_balance_line(b, groups, v);
        }
    }
}

/// Without colours, what stands under plain jobs is plain.
pub proof fn lemma_footer(
    entries: Seq<Entry>,
    v: Viewport,
    totals: Totals,
    balances: Seq<Balance>,
)
    requires
        !v.color,
        entries_plain(entries),
        totals_plain(totals),
        balances_plain(balances),
    ensures
        is_plain(footer::footer_text(entries, v, totals, balances)),
{
    broadcast use lemma_concat;

    footer::law_tightest(entries);
    lemma_totals(totals, v);
    lemma_tight_lines(entries, footer::tightest(entries), v);
    lemma_balance_lines(groups::charged(entries), groups::charged(entries), balances, v);
}

} // verus!
