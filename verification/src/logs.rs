//! The logs of jobs: where they are, and an index of them.

use crate::paint::Pal;
use crate::pbs::Job;
use crate::digits;
use crate::fmt;
use crate::logtext;
use crate::paint;
use crate::pbs;
use crate::plain;
use crate::text;
use vstd::prelude::*;

verus! {

// ---------------------------------------------------------------------------
// targets
// ---------------------------------------------------------------------------

/// The colour of the job at index `i`.
pub open spec fn job_code(i: int) -> Seq<char> {
    paint::hue(i)
}

/// The colour of the job at index `i`.
pub fn job_color(i: usize) -> (r: &'static str)
    ensures
        r@ == job_code(i as int),
{
    paint::hue_of(i)
}

/// One log file belonging to one job (`.e` suffix marks a separate stderr).
pub struct Target<'a> {
    pub job: &'a Job,
    pub jidx: usize,
    pub label: String,
    pub path: String,
    pub color: &'static str,
}

/// What is known of a log file. `jidx` is the index of its job.
pub struct TargetView {
    pub jidx: int,
    pub label: Seq<char>,
    pub path: Seq<char>,
}

impl<'a> View for Target<'a> {
    type V = TargetView;

    open spec fn view(&self) -> TargetView {
        TargetView { jidx: self.jidx as int, label: self.label@, path: self.path@ }
    }
}

/// Are these log files of the jobs, each with its job and the colour of it?
pub open spec fn targets_fit(targets: Seq<Target>, jobs: Seq<&Job>) -> bool {
    forall|k: int|
        0 <= k < targets.len() ==> (#[trigger] targets[k]).jidx < jobs.len() && targets[k].job
            == jobs[targets[k].jidx as int] && targets[k].color@ == job_code(
            targets[k].jidx as int,
        )
}

/// The views of the log files.
pub open spec fn target_views(targets: Seq<Target>) -> Seq<TargetView> {
    targets.map_values(|t: Target| t@)
}

/// The standard output of a job, where it goes to a file.
pub open spec fn output_of(j: Job) -> Option<Seq<char>> {
    match j.log_path {
        Some(p) => if p@ == "/dev/null"@ {
            None
        } else {
            Some(p@)
        },
        None => None,
    }
}

/// The standard error of a job, where it goes to a file of its own.
pub open spec fn errors_of(j: Job) -> Option<Seq<char>> {
    match j.error_path {
        Some(e) => if j.join_oe || e@ == "/dev/null"@ || pbs::opt_text(j.log_path) == Some(e@) {
            None
        } else {
            Some(e@)
        },
        None => None,
    }
}

/// The log files of the job at index `i`.
pub open spec fn targets_of(j: Job, i: int) -> Seq<TargetView> {
    let t0 = match output_of(j) {
        Some(p) => seq![TargetView { jidx: i, label: j.short_id@, path: p }],
        None => Seq::empty(),
    };
    match errors_of(j) {
        Some(e) => t0.push(TargetView { jidx: i, label: j.short_id@ + ".e"@, path: e }),
        None => t0,
    }
}

/// The log files of the jobs.
pub open spec fn all_targets(jobs: Seq<&Job>) -> Seq<TargetView>
    decreases jobs.len(),
{
    if jobs.len() == 0 {
        Seq::empty()
    } else {
        all_targets(jobs.drop_last()) + targets_of(*jobs.last(), jobs.len() - 1)
    }
}

/// The log files of the jobs.
pub fn build_targets<'a>(jobs: &Vec<&'a Job>) -> (r: Vec<Target<'a>>)
    ensures
        target_views(r@) == all_targets(jobs@),
        targets_fit(r@, jobs@),
{
    let mut ts: Vec<Target<'a>> = Vec::new();
    let mut jidx: usize = 0;
    assert(target_views(ts@) == all_targets(jobs@.take(0)));
    while jidx < jobs.len()
        invariant
            jidx <= jobs@.len(),
            target_views(ts@) == all_targets(jobs@.take(jidx as int)),
            targets_fit(ts@, jobs@),
        decreases jobs@.len() - jidx,
    {
        let j = jobs[jidx];
        let ghost before = target_views(ts@);
        assert(jobs@.take(jidx + 1).drop_last() == jobs@.take(jidx as int));
        assert(jobs@.take(jidx + 1).last() == j);
        match &j.log_path {
            Some(p) => {
                if !text::same(p.as_str(), "/dev/null") {
                    ts.push(
                        Target {
                            job: j,
                            jidx,
                            label: j.short_id.clone(),
                            path: p.clone(),
                            color: job_color(jidx),
                        },
                    );
                }
            },
            None => {},
        }
        let ghost own = match output_of(*j) {
            Some(p) => seq![TargetView { jidx: jidx as int, label: j.short_id@, path: p }],
            None => Seq::empty(),
        };
        assert(target_views(ts@) == before + own);
        // Only jobs without -j oe have a live separate stderr file.
        if !j.join_oe {
            match &j.error_path {
                Some(e) => {
                    let shared = match &j.log_path {
                        Some(p) => text::same(p.as_str(), e.as_str()),
                        None => false,
                    };
                    if !text::same(e.as_str(), "/dev/null") && !shared {
                        let mut label = j.short_id.clone();
                        label.append(".e");
                        ts.push(
                            Target {
                                job: j,
                                jidx,
                                label,
                                path: e.clone(),
                                color: job_color(jidx),
                            },
                        );
                    }
                },
                None => {},
            }
        }
        assert(target_views(ts@) == before + targets_of(*j, jidx as int));
        jidx += 1;
    }
    assert(jobs@.take(jidx as int) == jobs@);
    ts
}

// ---------------------------------------------------------------------------
// the index
// ---------------------------------------------------------------------------

/// When a file was last written.
pub enum Age {
    /// The system does not say.
    Unknown,
    /// In the future, by this system's clock.
    Ahead,
    /// That many seconds ago.
    Secs(u64),
}

/// What the system says of a file.
pub struct FileInfo {
    pub len: u64,
    pub age: Age,
}

/// The length of the longest label.
pub open spec fn widest(targets: Seq<TargetView>) -> nat
    decreases targets.len(),
{
    if targets.len() == 0 {
        0
    } else {
        let w = widest(targets.drop_last());
        let n = targets.last().label.len();
        if n > w {
            n
        } else {
            w
        }
    }
}

/// The length of the longest label.
pub fn label_width(targets: &Vec<Target>) -> (r: usize)
    ensures
        r == widest(target_views(targets@)),
{
    let ghost all = target_views(targets@);
    let mut w: usize = 0;
    let mut i: usize = 0;
    while i < targets.len()
        invariant
            i <= targets@.len(),
            all == target_views(targets@),
            w == widest(all.take(i as int)),
        decreases targets@.len() - i,
    {
        assert(all.take(i + 1).drop_last() == all.take(i as int));
        let n: usize = targets[i].label.as_str().unicode_len();
        if n > w {
            w = n;
        }
        i += 1;
    }
    assert(all.take(i as int) == all);
    w
}

pub const NAME_W: usize = 20;

pub const SIZE_W: usize = 9;

pub const AGE_W: usize = 7;

pub const MIN_PATH: usize = 24;

/// The widths of the columns of the index that vary.
pub struct Widths {
    pub number_w: usize,
    pub label_w: usize,
    pub path_w: usize,
}

/// The width of the path column: what the others leave, and no less than its least width.
pub open spec fn path_width(width: int, number_w: int, label_w: int) -> int {
    let room = width - (1 + number_w + 1 + label_w + 1 + 2 + 1 + NAME_W + 1 + SIZE_W + 1 + AGE_W
        + 1);
    if room > MIN_PATH {
        room
    } else {
        MIN_PATH as int
    }
}

/// The least width of the label column.
pub const MIN_LABEL: usize = 6;

/// The widths of the columns for a terminal `width` wide. The numbers are as wide as the last
/// one.
pub open spec fn index_widths(targets: Seq<TargetView>, width: int) -> Widths {
    let number_w = digits::decimal(targets.len()).len();
    let label_w = if widest(targets) > MIN_LABEL {
        widest(targets)
    } else {
        MIN_LABEL as nat
    };
    Widths {
        number_w: number_w as usize,
        label_w: label_w as usize,
        path_w: path_width(width, number_w as int, label_w as int) as usize,
    }
}

/// The widths of the columns for a terminal `width` wide.
pub fn widths(targets: &Vec<Target>, width: usize) -> (r: Widths)
    ensures
        r == index_widths(target_views(targets@), width as int),
{
    let number_w: usize = digits::show(targets.len() as u64).as_str().unicode_len();
    let longest: usize = label_width(targets);
    let label_w: usize = if longest > MIN_LABEL {
        longest
    } else {
        MIN_LABEL
    };
    let room: usize = width.saturating_sub(number_w).saturating_sub(label_w).saturating_sub(
        1 + 1 + 1 + 2 + 1 + NAME_W + 1 + SIZE_W + 1 + AGE_W + 1,
    );
    let path_w: usize = if room > MIN_PATH {
        room
    } else {
        MIN_PATH
    };
    Widths { number_w, label_w, path_w }
}

/// The line above the index, with room for the numbers.
pub open spec fn index_header(w: Widths, on: bool) -> Seq<char> {
    paint::dimmed(
        on,
        " "@ + fmt::padded(""@, w.number_w as nat) + " "@ + fmt::padded("ID"@, w.label_w as nat)
            + " "@ + "S "@ + " "@ + fmt::padded("NAME"@, NAME_W as nat) + " "@ + fmt::right_aligned(
            "SIZE"@,
            SIZE_W as nat,
        ) + " "@ + fmt::right_aligned("WRITE"@, AGE_W as nat) + " "@ + "PATH"@,
    ) + "\n"@
}

/// The size of a file.
pub open spec fn size_cell(f: Option<FileInfo>) -> Seq<char> {
    match f {
        Some(i) => logtext::bytes_text(i.len as int),
        None => "-"@,
    }
}

/// When a file was last written.
pub open spec fn age_cell(f: Option<FileInfo>) -> Seq<char> {
    match f {
        Some(i) => match i.age {
            Age::Unknown => "-"@,
            Age::Ahead => logtext::ago_text(None),
            Age::Secs(n) => logtext::ago_text(Some(n)),
        },
        None => "-"@,
    }
}

/// The line of the log file with the number `k`: `mark`, the number, and what is known of the
/// file.
pub open spec fn index_row(
    mark: Seq<char>,
    k: nat,
    t: Target,
    f: Option<FileInfo>,
    w: Widths,
    on: bool,
) -> Seq<char> {
    mark + fmt::right_aligned(digits::decimal(k), w.number_w as nat) + " "@ + paint::painted(
        on,
        t.color@,
        fmt::padded(t.label@, w.label_w as nat),
    ) + " "@ + paint::painted(
        on,
        pbs::state_color(t.job.state),
        fmt::padded(pbs::state_code(t.job.state), 2),
    ) + " "@ + fmt::padded(fmt::ellipsized(t.job.name@, NAME_W as nat), NAME_W as nat) + " "@
        + fmt::right_aligned(size_cell(f), SIZE_W as nat) + " "@ + fmt::right_aligned(
        age_cell(f),
        AGE_W as nat,
    ) + " "@ + paint::dimmed(on, logtext::ellipsized_front(t.path@, w.path_w as int)) + "\n"@
}

/// The mark before a line of the index: an arrow where the cursor is.
pub open spec fn cursor_mark(cursor: Option<usize>, i: int) -> Seq<char> {
    match cursor {
        Some(c) => if c == i {
            ">"@
        } else {
            " "@
        },
        None => " "@,
    }
}

/// The lines of the log files at the indices from `from` to before `to`, numbered from 1 on.
pub open spec fn index_rows(
    targets: Seq<Target>,
    files: Seq<Option<FileInfo>>,
    from: nat,
    to: nat,
    cursor: Option<usize>,
    w: Widths,
    on: bool,
) -> Seq<char>
    decreases to,
{
    if to <= from {
        Seq::empty()
    } else {
        let i = (to - 1) as nat;
        index_rows(targets, files, from, i, cursor, w, on) + index_row(
            cursor_mark(cursor, i as int),
            to,
            targets[i as int],
            files[i as int],
            w,
            on,
        )
    }
}

/// Is a file missing?
pub open spec fn any_missing(files: Seq<Option<FileInfo>>) -> bool {
    exists|i: int| 0 <= i < files.len() && (#[trigger] files[i]) is None
}

/// The index of the log files, with columns as wide as `w` says.
pub open spec fn index_text(
    targets: Seq<Target>,
    files: Seq<Option<FileInfo>>,
    w: Widths,
    on: bool,
) -> Seq<char> {
    let l0 = index_header(w, on) + index_rows(targets, files, 0, targets.len(), None, w, on);
    let l1 = if any_missing(files) {
        l0 + " "@ + paint::dimmed(
            on,
            "- = no file yet: job not started, or output spooled without #PBS -k oed"@,
        ) + "\n"@
    } else {
        l0
    };
    l1 + " "@ + paint::dimmed(
        on,
        "follow: qlog -f · search: qlog -g PATTERN · open: less $(qlog -p <jobid>)"@,
    ) + "\n"@
}

/// Are the texts of a log plain that the index shows?
pub open spec fn target_plain(t: Target) -> bool {
    plain::is_plain(t.label@) && plain::is_plain(t.path@) && plain::is_plain(t.job.name@)
}

/// Without colours, the line of a log is plain.
proof fn lemma_index_row_plain(
    mark: Seq<char>,
    k: nat,
    t: Target,
    f: Option<FileInfo>,
    w: Widths,
)
    requires
        plain::is_plain(mark),
        target_plain(t),
    ensures
        plain::is_plain(index_row(mark, k, t, f, w, false)),
{
    broadcast use plain::group_plain;

    reveal_strlit(" ");
    reveal_strlit("-");
    reveal_strlit("\n");
}

/// Without colours, the lines of the index are plain.
proof fn lemma_index_rows_plain(
    targets: Seq<Target>,
    files: Seq<Option<FileInfo>>,
    to: nat,
    w: Widths,
)
    requires
        to <= targets.len(),
        forall|i: int| 0 <= i < targets.len() ==> target_plain(#[trigger] targets[i]),
    ensures
        plain::is_plain(index_rows(targets, files, 0, to, None, w, false)),
    decreases to,
{
    broadcast use {plain::lemma_concat, plain::lemma_empty};

    if to > 0 {
        let i = (to - 1) as nat;
        lemma_index_rows_plain(targets, files, i, w);
        reveal_strlit(" ");
        lemma_index_row_plain(" "@, to, targets[i as int], files[i as int], w);
    }
}

/// Without colours, the index holds no control sequence of the terminal, unless it is in the
/// texts of the logs.
pub proof fn law_no_colour(targets: Seq<Target>, files: Seq<Option<FileInfo>>, w: Widths)
    requires
        forall|i: int| 0 <= i < targets.len() ==> target_plain(#[trigger] targets[i]),
    ensures
        plain::is_plain(index_text(targets, files, w, false)),
{
    broadcast use plain::group_plain;

    lemma_index_rows_plain(targets, files, targets.len(), w);
    assert(plain::is_plain(" "@)) by {
        reveal_strlit(" ");
    }
    assert(plain::is_plain(""@)) by {
        reveal_strlit("");
    }
    assert(plain::is_plain("ID"@)) by {
        reveal_strlit("ID");
    }
    assert(plain::is_plain("S "@)) by {
        reveal_strlit("S ");
    }
    assert(plain::is_plain("NAME"@)) by {
        reveal_strlit("NAME");
    }
    assert(plain::is_plain("SIZE"@)) by {
        reveal_strlit("SIZE");
    }
    assert(plain::is_plain("WRITE"@)) by {
        reveal_strlit("WRITE");
    }
    assert(plain::is_plain("PATH"@)) by {
        reveal_strlit("PATH");
    }
    assert(plain::is_plain("\n"@)) by {
        reveal_strlit("\n");
    }
    assert(plain::is_plain("- = no file yet: job not started, or output spooled without #PBS -k oed"@)) by {
        reveal_strlit("- = no file yet: job not started, or output spooled without #PBS -k oed");
    }
    assert(plain::is_plain("follow: qlog -f · search: qlog -g PATTERN · open: less $(qlog -p <jobid>)"@)) by {
        reveal_strlit("follow: qlog -f · search: qlog -g PATTERN · open: less $(qlog -p <jobid>)");
    }
}

/// The line above the index.
pub(crate) fn show_index_header(w: &Widths, pal: Pal) -> (r: String)
    ensures
        r@ == index_header(*w, pal.on),
{
    let mut s = " ".to_owned();
    s.append(fmt::pad("", w.number_w).as_str());
    s.append(" ");
    s.append(fmt::pad("ID", w.label_w).as_str());
    s.append(" ");
    s.append("S ");
    s.append(" ");
    s.append(fmt::pad("NAME", NAME_W).as_str());
    s.append(" ");
    s.append(fmt::rpad("SIZE", SIZE_W).as_str());
    s.append(" ");
    s.append(fmt::rpad("WRITE", AGE_W).as_str());
    s.append(" ");
    s.append("PATH");
    let mut out = pal.dim(s.as_str());
    out.append("\n");
    out
}

/// The line of the log file with the number `k`.
fn show_index_row(
    mark: &str,
    k: usize,
    t: &Target,
    f: &Option<FileInfo>,
    w: &Widths,
    pal: Pal,
) -> (r: String)
    ensures
        r@ == index_row(mark@, k as nat, *t, *f, *w, pal.on),
{
    let (size_s, age_s) = match f {
        Some(i) => (
            logtext::human_bytes(i.len),
            match i.age {
                Age::Unknown => "-".to_owned(),
                Age::Ahead => logtext::ago(None),
                Age::Secs(n) => logtext::ago(Some(n)),
            },
        ),
        None => ("-".to_owned(), "-".to_owned()),
    };
    let mut s = mark.to_owned();
    s.append(fmt::rpad(digits::show(k as u64).as_str(), w.number_w).as_str());
    s.append(" ");
    s.append(pal.c(t.color, fmt::pad(t.label.as_str(), w.label_w).as_str()).as_str());
    s.append(" ");
    s.append(pal.c(t.job.state.color(), fmt::pad(t.job.state.code(), 2).as_str()).as_str());
    s.append(" ");
    s.append(fmt::pad(fmt::ellipsize(t.job.name.as_str(), NAME_W).as_str(), NAME_W).as_str());
    s.append(" ");
    s.append(fmt::rpad(size_s.as_str(), SIZE_W).as_str());
    s.append(" ");
    s.append(fmt::rpad(age_s.as_str(), AGE_W).as_str());
    s.append(" ");
    s.append(pal.dim(logtext::ellipsize_front(t.path.as_str(), w.path_w).as_str()).as_str());
    s.append("\n");
    s
}

/// The lines of the log files at the indices from `from` to before `to`, numbered from 1 on.
pub(crate) fn show_index_rows(
    targets: &Vec<Target>,
    files: &Vec<Option<FileInfo>>,
    from: usize,
    to: usize,
    cursor: Option<usize>,
    w: &Widths,
    pal: Pal,
) -> (r: String)
    requires
        files@.len() == targets@.len(),
        from <= to <= targets@.len(),
    ensures
        r@ == index_rows(targets@, files@, from as nat, to as nat, cursor, *w, pal.on),
{
    let mut rows = String::new();
    let mut i: usize = from;
    assert(rows@ == index_rows(targets@, files@, from as nat, from as nat, cursor, *w, pal.on));
    while i < to
        invariant
            from <= i <= to <= targets@.len(),
            files@.len() == targets@.len(),
            rows@ == index_rows(targets@, files@, from as nat, i as nat, cursor, *w, pal.on),
        decreases to - i,
    {
        let here = match cursor {
            Some(c) => c == i,
            None => false,
        };
        let mark = if here {
            ">"
        } else {
            " "
        };
        rows.append(show_index_row(mark, i + 1, &targets[i], &files[i], w, pal).as_str());
        i += 1;
    }
    rows
}

/// Is a file missing?
fn has_missing(files: &Vec<Option<FileInfo>>) -> (r: bool)
    ensures
        r == any_missing(files@),
{
    let mut i: usize = 0;
    while i < files.len()
        invariant
            i <= files@.len(),
            forall|k: int| 0 <= k < i ==> !((#[trigger] files@[k]) is None),
        decreases files@.len() - i,
    {
        if files[i].is_none() {
            assert(files@[i as int] is None);
            return true;
        }
        i += 1;
    }
    false
}

/// The index of the log files. `files` says what the system says of each; `None` stands for
/// a file that is missing.
pub fn list(targets: &Vec<Target>, files: &Vec<Option<FileInfo>>, width: usize, pal: Pal) -> (r:
    String)
    requires
        files@.len() == targets@.len(),
    ensures
        r@ == index_text(
            targets@,
            files@,
            index_widths(target_views(targets@), width as int),
            pal.on,
        ),
{
    let w = widths(targets, width);
    let mut out = show_index_header(&w, pal);
    out.append(show_index_rows(targets, files, 0, targets.len(), None, &w, pal).as_str());
    if has_missing(files) {
        out.append(" ");
        out.append(
            pal.dim(
                "- = no file yet: job not started, or output spooled without #PBS -k oed",
            ).as_str(),
        );
        out.append("\n");
    }
    out.append(" ");
    out.append(
        pal.dim(
            "follow: qlog -f · search: qlog -g PATTERN · open: less $(qlog -p <jobid>)",
        ).as_str(),
    );
    out.append("\n");
    out
}

/// The paths of the log files, a line each.
pub open spec fn paths_text(targets: Seq<TargetView>) -> Seq<char>
    decreases targets.len(),
{
    if targets.len() == 0 {
        Seq::empty()
    } else {
        paths_text(targets.drop_last()) + targets.last().path + "\n"@
    }
}

/// The paths of the log files, a line each.
pub fn list_paths(targets: &Vec<Target>) -> (r: String)
    ensures
        r@ == paths_text(target_views(targets@)),
{
    let ghost all = target_views(targets@);
    let mut out = String::new();
    let mut i: usize = 0;
    assert(out@ == paths_text(all.take(0)));
    while i < targets.len()
        invariant
            i <= targets@.len(),
            all == target_views(targets@),
            out@ == paths_text(all.take(i as int)),
        decreases targets@.len() - i,
    {
        assert(all.take(i + 1).drop_last() == all.take(i as int));
        out.append(targets[i].path.as_str());
        out.append("\n");
        i += 1;
    }
    assert(all.take(i as int) == all);
    out
}

// ---------------------------------------------------------------------------
// modes
// ---------------------------------------------------------------------------

/// What the log tool does.
pub enum Mode {
    /// Prints the paths.
    Paths,
    /// Says that there are no paths.
    NoPaths,
    /// Shows the logs live, a page for each job.
    Pages,
    /// Streams the logs.
    Follow,
    /// Searches the logs.
    Search,
    /// Says that there are no logs.
    NoLogs,
    /// Lets the user pick a log from the index.
    Picker,
    /// Prints the index.
    Index,
}

/// What the log tool does: paths go before streaming, streaming before searching, and
/// searching before the index. On a screen of known size (`full_screen`) the stream is paged,
/// and the index is a picker.
pub fn mode(paths: bool, follow: bool, grep: bool, any_targets: bool, full_screen: bool) -> (r:
    Mode)
    ensures
        r == (if paths {
            if any_targets {
                Mode::Paths
            } else {
                Mode::NoPaths
            }
        } else if follow {
            if any_targets && full_screen {
                Mode::Pages
            } else {
                Mode::Follow
            }
        } else if grep {
            Mode::Search
        } else if any_targets {
            if full_screen {
                Mode::Picker
            } else {
                Mode::Index
            }
        } else {
            Mode::NoLogs
        }),
{
    if paths {
        if any_targets {
            Mode::Paths
        } else {
            Mode::NoPaths
        }
    } else if follow {
        if any_targets && full_screen {
            Mode::Pages
        } else {
            Mode::Follow
        }
    } else if grep {
        Mode::Search
    } else if any_targets {
        if full_screen {
            Mode::Picker
        } else {
            Mode::Index
        }
    } else {
        Mode::NoLogs
    }
}

} // verus!
