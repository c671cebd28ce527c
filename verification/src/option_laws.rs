//! Laws of the two command lines: what each option does, and that it does nothing else.

use crate::logopts;
use crate::opts;
use crate::digits;
use crate::text;
use vstd::prelude::*;

verus! {

/// An argument, and those behind it.
pub open spec fn then_args(a: Seq<char>, rest: Seq<Seq<char>>) -> Seq<Seq<char>> {
    seq![a] + rest
}

/// The first of the arguments, and those behind it.
proof fn lemma_args(a: Seq<char>, rest: Seq<Seq<char>>)
    ensures
        then_args(a, rest).len() == rest.len() + 1,
        then_args(a, rest)[0] == a,
        then_args(a, rest).skip(1) == rest,
{
    assert(then_args(a, rest).skip(1) == rest);
}

// ---------------------------------------------------------------------------
// the listing
// ---------------------------------------------------------------------------

/// The options of the listing are told apart by these characters.
pub(crate) proof fn lemma_listing_options()
    ensures
        "-h"@.len() == 2,
        "-h"@[1] == 'h',
        "-h"@[0] == '-',
        "--help"@.len() == 6,
        "--help"@[1] == '-',
        "--help"@[2] == 'h',
        "--help"@[3] == 'e',
        "--help"@[0] == '-',
        "-V"@.len() == 2,
        "-V"@[1] == 'V',
        "-V"@[0] == '-',
        "--version"@.len() == 9,
        "--version"@[1] == '-',
        "--version"@[2] == 'v',
        "--version"@[3] == 'e',
        "--version"@[0] == '-',
        "-l"@.len() == 2,
        "-l"@[1] == 'l',
        "-l"@[0] == '-',
        "--long"@.len() == 6,
        "--long"@[1] == '-',
        "--long"@[2] == 'l',
        "--long"@[3] == 'o',
        "--long"@[0] == '-',
        "-c"@.len() == 2,
        "-c"@[1] == 'c',
        "-c"@[0] == '-',
        "-a"@.len() == 2,
        "-a"@[1] == 'a',
        "-a"@[0] == '-',
        "--all"@.len() == 5,
        "--all"@[1] == '-',
        "--all"@[2] == 'a',
        "--all"@[3] == 'l',
        "--all"@[0] == '-',
        "-x"@.len() == 2,
        "-x"@[1] == 'x',
        "-x"@[0] == '-',
        "--history"@.len() == 9,
        "--history"@[1] == '-',
        "--history"@[2] == 'h',
        "--history"@[3] == 'i',
        "--history"@[0] == '-',
        "--no-points"@.len() == 11,
        "--no-points"@[1] == '-',
        "--no-points"@[2] == 'n',
        "--no-points"@[3] == 'o',
        "--no-points"@[0] == '-',
        "--ascii"@.len() == 7,
        "--ascii"@[1] == '-',
        "--ascii"@[2] == 'a',
        "--ascii"@[3] == 's',
        "--ascii"@[0] == '-',
        "-u"@.len() == 2,
        "-u"@[1] == 'u',
        "-u"@[0] == '-',
        "--user"@.len() == 6,
        "--user"@[1] == '-',
        "--user"@[2] == 'u',
        "--user"@[3] == 's',
        "--user"@[0] == '-',
        "-w"@.len() == 2,
        "-w"@[1] == 'w',
        "-w"@[0] == '-',
        "--watch"@.len() == 7,
        "--watch"@[1] == '-',
        "--watch"@[2] == 'w',
        "--watch"@[3] == 'a',
        "--watch"@[0] == '-',
        "--color"@.len() == 7,
        "--color"@[1] == '-',
        "--color"@[2] == 'c',
        "--color"@[3] == 'o',
        "--color"@[0] == '-',
        "--width"@.len() == 7,
        "--width"@[1] == '-',
        "--width"@[2] == 'w',
        "--width"@[3] == 'i',
        "--width"@[0] == '-',
{
    reveal_strlit("-h");
    reveal_strlit("--help");
    reveal_strlit("-V");
    reveal_strlit("--version");
    reveal_strlit("-l");
    reveal_strlit("--long");
    reveal_strlit("-c");
    reveal_strlit("-a");
    reveal_strlit("--all");
    reveal_strlit("-x");
    reveal_strlit("--history");
    reveal_strlit("--no-points");
    reveal_strlit("--ascii");
    reveal_strlit("-u");
    reveal_strlit("--user");
    reveal_strlit("-w");
    reveal_strlit("--watch");
    reveal_strlit("--color");
    reveal_strlit("--width");
}

/// A switch sets its option and no other, wherever it stands, and the arguments behind it are
/// read as before.
pub proof fn law_listing_switches(rest: Seq<Seq<char>>, o: opts::OptsView)
    ensures
        opts::parsed(then_args("-l"@, rest), o) == opts::parsed(
            rest,
            (opts::OptsView { long: true, ..o }),
        ),
        opts::parsed(then_args("--long"@, rest), o) == opts::parsed(
            rest,
            (opts::OptsView { long: true, ..o }),
        ),
        opts::parsed(then_args("-c"@, rest), o) == opts::parsed(
            rest,
            (opts::OptsView { cluster: true, ..o }),
        ),
        opts::parsed(then_args("-a"@, rest), o) == opts::parsed(
            rest,
            (opts::OptsView { all_users: true, ..o }),
        ),
        opts::parsed(then_args("--all"@, rest), o) == opts::parsed(
            rest,
            (opts::OptsView { all_users: true, ..o }),
        ),
        opts::parsed(then_args("-x"@, rest), o) == opts::parsed(
            rest,
            (opts::OptsView { history: true, ..o }),
        ),
        opts::parsed(then_args("--history"@, rest), o) == opts::parsed(
            rest,
            (opts::OptsView { history: true, ..o }),
        ),
        opts::parsed(then_args("--no-points"@, rest), o) == opts::parsed(
            rest,
            (opts::OptsView { points: false, ..o }),
        ),
        opts::parsed(then_args("--ascii"@, rest), o) == opts::parsed(
            rest,
            (opts::OptsView { ascii: true, ..o }),
        ),
{
    lemma_listing_options();
    lemma_args("-l"@, rest);
    lemma_args("--long"@, rest);
    lemma_args("-c"@, rest);
    lemma_args("-a"@, rest);
    lemma_args("--all"@, rest);
    lemma_args("-x"@, rest);
    lemma_args("--history"@, rest);
    lemma_args("--no-points"@, rest);
    lemma_args("--ascii"@, rest);
}

/// `-u` takes the user behind it; `--width` a number; `--color` one of three words; and without
/// what they take there is a complaint.
pub proof fn law_listing_values(v: Seq<char>, n: usize, rest: Seq<Seq<char>>, o: opts::OptsView)
    ensures
        opts::parsed(then_args("-u"@, then_args(v, rest)), o) == opts::parsed(
            rest,
            (opts::OptsView { user: Some(v), ..o }),
        ),
        opts::parsed(then_args("--user"@, then_args(v, rest)), o) == opts::parsed(
            rest,
            (opts::OptsView { user: Some(v), ..o }),
        ),
        opts::parsed(then_args("--width"@, then_args(digits::decimal(n as nat), rest)), o)
            == opts::parsed(rest, (opts::OptsView { width: Some(n), ..o })),
        opts::parsed(then_args("--color"@, then_args("always"@, rest)), o) == opts::parsed(
            rest,
            (opts::OptsView { color: Some(true), ..o }),
        ),
        opts::parsed(then_args("--color"@, then_args("never"@, rest)), o) == opts::parsed(
            rest,
            (opts::OptsView { color: Some(false), ..o }),
        ),
        opts::parsed(then_args("--color"@, then_args("auto"@, rest)), o) == opts::parsed(
            rest,
            (opts::OptsView { color: None, ..o }),
        ),
        v != "always"@ && v != "never"@ && v != "auto"@ ==> opts::parsed(
            then_args("--color"@, then_args(v, rest)),
            o,
        ) is Err,
        opts::parsed(seq!["-u"@], o) is Err,
        opts::parsed(seq!["--width"@], o) is Err,
        opts::parsed(seq!["--color"@], o) is Err,
{
    lemma_listing_options();
    digits::law_read_back(n as nat, usize::MAX as nat);
    let d = digits::decimal(n as nat);
    reveal_strlit("always");
    reveal_strlit("never");
    reveal_strlit("auto");
    lemma_args("-u"@, then_args(v, rest));
    lemma_args("--user"@, then_args(v, rest));
    lemma_args("--width"@, then_args(d, rest));
    lemma_args("--color"@, then_args("always"@, rest));
    lemma_args("--color"@, then_args("never"@, rest));
    lemma_args("--color"@, then_args("auto"@, rest));
    lemma_args("--color"@, then_args(v, rest));
    lemma_args(v, rest);
    lemma_args(d, rest);
    lemma_args("always"@, rest);
    lemma_args("never"@, rest);
    lemma_args("auto"@, rest);
    assert("always"@.len() == 6 && "never"@.len() == 5 && "auto"@.len() == 4);
    assert(seq!["-u"@].skip(1).len() == 0 && seq!["--width"@].skip(1).len() == 0
        && seq!["--color"@].skip(1).len() == 0);
}

/// `-w` takes a number of seconds, of which there is one at least; before anything that is no
/// number, and at the end, it means ten seconds and takes nothing.
pub proof fn law_watch(n: u64, rest: Seq<Seq<char>>, o: opts::OptsView)
    ensures
        n > 0 ==> opts::parsed(then_args("-w"@, then_args(digits::decimal(n as nat), rest)), o)
            == opts::parsed(rest, (opts::OptsView { watch: Some(n), ..o })),
        n == 0 ==> opts::parsed(then_args("-w"@, then_args(digits::decimal(n as nat), rest)), o)
            == opts::parsed(rest, (opts::OptsView { watch: Some(1), ..o })),
        n > 0 ==> opts::parsed(then_args("--watch"@, then_args(digits::decimal(n as nat), rest)), o)
            == opts::parsed(rest, (opts::OptsView { watch: Some(n), ..o })),
        rest.len() == 0 || (rest[0].len() > 0 && rest[0][0] != '+' && !digits::is_digit(rest[0][0]))
            ==> opts::parsed(then_args("-w"@, rest), o) == opts::parsed(
            rest,
            (opts::OptsView { watch: Some(10), ..o }),
        ),
{
    lemma_listing_options();
    let d = digits::decimal(n as nat);
    digits::law_read_back(n as nat, u64::MAX as nat);
    lemma_args("-w"@, then_args(d, rest));
    lemma_args("--watch"@, then_args(d, rest));
    lemma_args("-w"@, rest);
    lemma_args(d, rest);
}

/// Help and the version are given where they are asked for; an option that there is not is an
/// error; and an argument without a hyphen is the id of a job.
pub proof fn law_listing_rest(a: Seq<char>, rest: Seq<Seq<char>>, o: opts::OptsView)
    ensures
        opts::parsed(then_args("-h"@, rest), o) == Ok::<opts::RequestView, Seq<char>>(
            opts::RequestView::Help,
        ),
        opts::parsed(then_args("--help"@, rest), o) == Ok::<opts::RequestView, Seq<char>>(
            opts::RequestView::Help,
        ),
        opts::parsed(then_args("-V"@, rest), o) == Ok::<opts::RequestView, Seq<char>>(
            opts::RequestView::Version,
        ),
        opts::parsed(then_args("--version"@, rest), o) == Ok::<opts::RequestView, Seq<char>>(
            opts::RequestView::Version,
        ),
        a.len() == 0 || a[0] != '-' ==> opts::parsed(then_args(a, rest), o) == opts::parsed(
            rest,
            (opts::OptsView { ids: o.ids.push(a), ..o }),
        ),
        a.len() == 2 && a[0] == '-' && !seq!['h', 'V', 'l', 'c', 'a', 'x', 'u', 'w'].contains(a[1])
            ==> opts::parsed(then_args(a, rest), o) is Err,
{
    lemma_listing_options();
    let known = seq!['h', 'V', 'l', 'c', 'a', 'x', 'u', 'w'];
    assert(known[0] == 'h' && known[1] == 'V' && known[2] == 'l' && known[3] == 'c' && known[4]
        == 'a' && known[5] == 'x' && known[6] == 'u' && known[7] == 'w');
    lemma_args("-h"@, rest);
    lemma_args("--help"@, rest);
    lemma_args("-V"@, rest);
    lemma_args("--version"@, rest);
    lemma_args(a, rest);
}

/// Without arguments the listing is a table of one's own jobs, with points, and nothing else.
pub proof fn law_listing_defaults(args: &Vec<String>, r: Result<opts::Request, String>)
    requires
        call_ensures(opts::parse_args, (args,), r),
        args@.len() == 0,
    ensures
        r matches Ok(opts::Request::Run(o)) && o.points && !o.long && !o.cluster && !o.all_users
            && !o.history && !o.ascii && o.user is None && o.watch is None && o.color is None
            && o.width is None && o.ids@.len() == 0,
{
    assert(text::texts(args@).len() == 0);
    let o = opts::defaults();
    if let Ok(opts::Request::Run(q)) = r {
        assert(q@ == o);
        assert(text::texts(q.ids@).len() == q.ids@.len());
    }
}

// ---------------------------------------------------------------------------
// the log tool
// ---------------------------------------------------------------------------

/// The options of the log tool are told apart by these characters.
pub(crate) proof fn lemma_log_options()
    ensures
        "-h"@.len() == 2,
        "-h"@[1] == 'h',
        "-h"@[0] == '-',
        "--help"@.len() == 6,
        "--help"@[1] == '-',
        "--help"@[2] == 'h',
        "--help"@[3] == 'e',
        "--help"@[0] == '-',
        "-V"@.len() == 2,
        "-V"@[1] == 'V',
        "-V"@[0] == '-',
        "--version"@.len() == 9,
        "--version"@[1] == '-',
        "--version"@[2] == 'v',
        "--version"@[3] == 'e',
        "--version"@[0] == '-',
        "-f"@.len() == 2,
        "-f"@[1] == 'f',
        "-f"@[0] == '-',
        "--follow"@.len() == 8,
        "--follow"@[1] == '-',
        "--follow"@[2] == 'f',
        "--follow"@[3] == 'o',
        "--follow"@[0] == '-',
        "-p"@.len() == 2,
        "-p"@[1] == 'p',
        "-p"@[0] == '-',
        "--paths"@.len() == 7,
        "--paths"@[1] == '-',
        "--paths"@[2] == 'p',
        "--paths"@[3] == 'a',
        "--paths"@[0] == '-',
        "-i"@.len() == 2,
        "-i"@[1] == 'i',
        "-i"@[0] == '-',
        "--ignore-case"@.len() == 13,
        "--ignore-case"@[1] == '-',
        "--ignore-case"@[2] == 'i',
        "--ignore-case"@[3] == 'g',
        "--ignore-case"@[0] == '-',
        "-x"@.len() == 2,
        "-x"@[1] == 'x',
        "-x"@[0] == '-',
        "--history"@.len() == 9,
        "--history"@[1] == '-',
        "--history"@[2] == 'h',
        "--history"@[3] == 'i',
        "--history"@[0] == '-',
        "-a"@.len() == 2,
        "-a"@[1] == 'a',
        "-a"@[0] == '-',
        "--all"@.len() == 5,
        "--all"@[1] == '-',
        "--all"@[2] == 'a',
        "--all"@[3] == 'l',
        "--all"@[0] == '-',
        "-g"@.len() == 2,
        "-g"@[1] == 'g',
        "-g"@[0] == '-',
        "--grep"@.len() == 6,
        "--grep"@[1] == '-',
        "--grep"@[2] == 'g',
        "--grep"@[3] == 'r',
        "--grep"@[0] == '-',
        "-u"@.len() == 2,
        "-u"@[1] == 'u',
        "-u"@[0] == '-',
        "--user"@.len() == 6,
        "--user"@[1] == '-',
        "--user"@[2] == 'u',
        "--user"@[3] == 's',
        "--user"@[0] == '-',
        "-C"@.len() == 2,
        "-C"@[1] == 'C',
        "-C"@[0] == '-',
        "--context"@.len() == 9,
        "--context"@[1] == '-',
        "--context"@[2] == 'c',
        "--context"@[3] == 'o',
        "--context"@[0] == '-',
        "-n"@.len() == 2,
        "-n"@[1] == 'n',
        "-n"@[0] == '-',
        "--tail"@.len() == 6,
        "--tail"@[1] == '-',
        "--tail"@[2] == 't',
        "--tail"@[3] == 'a',
        "--tail"@[0] == '-',
        "--color"@.len() == 7,
        "--color"@[1] == '-',
        "--color"@[2] == 'c',
        "--color"@[3] == 'o',
        "--color"@[0] == '-',
{
    reveal_strlit("-h");
    reveal_strlit("--help");
    reveal_strlit("-V");
    reveal_strlit("--version");
    reveal_strlit("-f");
    reveal_strlit("--follow");
    reveal_strlit("-p");
    reveal_strlit("--paths");
    reveal_strlit("-i");
    reveal_strlit("--ignore-case");
    reveal_strlit("-x");
    reveal_strlit("--history");
    reveal_strlit("-a");
    reveal_strlit("--all");
    reveal_strlit("-g");
    reveal_strlit("--grep");
    reveal_strlit("-u");
    reveal_strlit("--user");
    reveal_strlit("-C");
    reveal_strlit("--context");
    reveal_strlit("-n");
    reveal_strlit("--tail");
    reveal_strlit("--color");
}

/// A switch sets its option and no other, wherever it stands, and the arguments behind it are
/// read as before.
pub proof fn law_log_switches(rest: Seq<Seq<char>>, o: logopts::OptsView)
    ensures
        logopts::parsed(then_args("-f"@, rest), o) == logopts::parsed(
            rest,
            (logopts::OptsView { follow: true, ..o }),
        ),
        logopts::parsed(then_args("--follow"@, rest), o) == logopts::parsed(
            rest,
            (logopts::OptsView { follow: true, ..o }),
        ),
        logopts::parsed(then_args("-p"@, rest), o) == logopts::parsed(
            rest,
            (logopts::OptsView { paths: true, ..o }),
        ),
        logopts::parsed(then_args("--paths"@, rest), o) == logopts::parsed(
            rest,
            (logopts::OptsView { paths: true, ..o }),
        ),
        logopts::parsed(then_args("-i"@, rest), o) == logopts::parsed(
            rest,
            (logopts::OptsView { icase: true, ..o }),
        ),
        logopts::parsed(then_args("--ignore-case"@, rest), o) == logopts::parsed(
            rest,
            (logopts::OptsView { icase: true, ..o }),
        ),
        logopts::parsed(then_args("-x"@, rest), o) == logopts::parsed(
            rest,
            (logopts::OptsView { history: true, ..o }),
        ),
        logopts::parsed(then_args("--history"@, rest), o) == logopts::parsed(
            rest,
            (logopts::OptsView { history: true, ..o }),
        ),
        logopts::parsed(then_args("-a"@, rest), o) == logopts::parsed(
            rest,
            (logopts::OptsView { all_users: true, ..o }),
        ),
        logopts::parsed(then_args("--all"@, rest), o) == logopts::parsed(
            rest,
            (logopts::OptsView { all_users: true, ..o }),
        ),
{
    lemma_log_options();
    lemma_args("-f"@, rest);
    lemma_args("--follow"@, rest);
    lemma_args("-p"@, rest);
    lemma_args("--paths"@, rest);
    lemma_args("-i"@, rest);
    lemma_args("--ignore-case"@, rest);
    lemma_args("-x"@, rest);
    lemma_args("--history"@, rest);
    lemma_args("-a"@, rest);
    lemma_args("--all"@, rest);
}

/// `-g` takes a pattern, `-u` a user, `-C` the lines of context, `-n` the lines of backlog, and
/// nothing else changes; without what they take there is a complaint.
pub proof fn law_log_values(v: Seq<char>, n: usize, rest: Seq<Seq<char>>, o: logopts::OptsView)
    ensures
        logopts::parsed(then_args("-g"@, then_args(v, rest)), o) == logopts::parsed(
            rest,
            (logopts::OptsView { grep: Some(v), ..o }),
        ),
        logopts::parsed(then_args("--grep"@, then_args(v, rest)), o) == logopts::parsed(
            rest,
            (logopts::OptsView { grep: Some(v), ..o }),
        ),
        logopts::parsed(then_args("-u"@, then_args(v, rest)), o) == logopts::parsed(
            rest,
            (logopts::OptsView { user: Some(v), ..o }),
        ),
        logopts::parsed(then_args("--user"@, then_args(v, rest)), o) == logopts::parsed(
            rest,
            (logopts::OptsView { user: Some(v), ..o }),
        ),
        logopts::parsed(then_args("-C"@, then_args(digits::decimal(n as nat), rest)), o) == logopts::parsed(
            rest,
            (logopts::OptsView { context: n, ..o }),
        ),
        logopts::parsed(then_args("--context"@, then_args(digits::decimal(n as nat), rest)), o) == logopts::parsed(
            rest,
            (logopts::OptsView { context: n, ..o }),
        ),
        logopts::parsed(then_args("-n"@, then_args(digits::decimal(n as nat), rest)), o) == logopts::parsed(
            rest,
            (logopts::OptsView { tail: n, ..o }),
        ),
        logopts::parsed(then_args("--tail"@, then_args(digits::decimal(n as nat), rest)), o) == logopts::parsed(
            rest,
            (logopts::OptsView { tail: n, ..o }),
        ),
        logopts::parsed(then_args("--color"@, then_args("always"@, rest)), o) == logopts::parsed(
            rest,
            (logopts::OptsView { color: Some(true), ..o }),
        ),
        logopts::parsed(then_args("--color"@, then_args("never"@, rest)), o) == logopts::parsed(
            rest,
            (logopts::OptsView { color: Some(false), ..o }),
        ),
        logopts::parsed(then_args("--color"@, then_args("auto"@, rest)), o) == logopts::parsed(
            rest,
            (logopts::OptsView { color: None, ..o }),
        ),
        logopts::parsed(seq!["-g"@], o) is Err,
        logopts::parsed(seq!["-u"@], o) is Err,
        logopts::parsed(seq!["-C"@], o) is Err,
        logopts::parsed(seq!["-n"@], o) is Err,
        logopts::parsed(seq!["--color"@], o) is Err,
{
    lemma_log_options();
    digits::law_read_back(n as nat, usize::MAX as nat);
    let d = digits::decimal(n as nat);
    reveal_strlit("always");
    reveal_strlit("never");
    reveal_strlit("auto");
    assert("always"@.len() == 6 && "never"@.len() == 5 && "auto"@.len() == 4);
    lemma_args("-g"@, then_args(v, rest));
    lemma_args("--grep"@, then_args(v, rest));
    lemma_args("-u"@, then_args(v, rest));
    lemma_args("--user"@, then_args(v, rest));
    lemma_args("-C"@, then_args(d, rest));
    lemma_args("--context"@, then_args(d, rest));
    lemma_args("-n"@, then_args(d, rest));
    lemma_args("--tail"@, then_args(d, rest));
    lemma_args("--color"@, then_args("always"@, rest));
    lemma_args("always"@, rest);
    lemma_args("--color"@, then_args("never"@, rest));
    lemma_args("never"@, rest);
    lemma_args("--color"@, then_args("auto"@, rest));
    lemma_args("auto"@, rest);
    lemma_args(v, rest);
    lemma_args(d, rest);
    assert(seq!["-g"@].skip(1).len() == 0 && seq!["-u"@].skip(1).len() == 0
        && seq!["-C"@].skip(1).len() == 0 && seq!["-n"@].skip(1).len() == 0
        && seq!["--color"@].skip(1).len() == 0);
}

/// Help and the version are given where they are asked for; an option that there is not is an
/// error; and an argument without a hyphen is the id of a job.
pub proof fn law_log_rest(a: Seq<char>, rest: Seq<Seq<char>>, o: logopts::OptsView)
    ensures
        logopts::parsed(then_args("-h"@, rest), o) == Ok::<logopts::RequestView, Seq<char>>(
            logopts::RequestView::Help,
        ),
        logopts::parsed(then_args("-V"@, rest), o) == Ok::<logopts::RequestView, Seq<char>>(
            logopts::RequestView::Version,
        ),
        a.len() == 0 || a[0] != '-' ==> logopts::parsed(then_args(a, rest), o) == logopts::parsed(
            rest,
            (logopts::OptsView { ids: o.ids.push(a), ..o }),
        ),
        a.len() == 2 && a[0] == '-' && !seq![
            'h',
            'V',
            'f',
            'p',
            'i',
            'x',
            'a',
            'g',
            'u',
            'C',
            'n',
        ].contains(a[1]) ==> logopts::parsed(then_args(a, rest), o) is Err,
{
    lemma_log_options();
    let known = seq!['h', 'V', 'f', 'p', 'i', 'x', 'a', 'g', 'u', 'C', 'n'];
    assert(known[0] == 'h' && known[1] == 'V' && known[2] == 'f' && known[3] == 'p' && known[4]
        == 'i' && known[5] == 'x' && known[6] == 'a' && known[7] == 'g' && known[8] == 'u'
        && known[9] == 'C' && known[10] == 'n');
    lemma_args("-h"@, rest);
    lemma_args("-V"@, rest);
    lemma_args(a, rest);
}

/// Without arguments the log tool shows an index of one's own jobs; the backlog is ten lines, and
/// there is no context.
pub proof fn law_log_defaults(args: &Vec<String>, r: Result<logopts::Request, String>)
    requires
        call_ensures(logopts::parse_args, (args,), r),
        args@.len() == 0,
    ensures
        r matches Ok(logopts::Request::Run(o)) && o.tail == 10 && o.context == 0 && !o.follow
            && o.grep is None && !o.icase && !o.history && !o.all_users && o.user is None
            && !o.paths && o.color is None && o.ids@.len() == 0,
{
    assert(text::texts(args@).len() == 0);
    let o = logopts::defaults();
    if let Ok(logopts::Request::Run(q)) = r {
        assert(q@ == o);
        assert(text::texts(q.ids@).len() == q.ids@.len());
    }
}

} // verus!
