//! The command line of the job listing.

use crate::digits;
use crate::pbs;
use crate::text;
use vstd::prelude::*;

verus! {

/// What a listing was asked for.
pub struct Opts {
    pub long: bool,
    pub cluster: bool,
    pub all_users: bool,
    pub user: Option<String>,
    pub history: bool,
    pub watch: Option<u64>,
    pub points: bool,
    pub color: Option<bool>,
    pub ascii: bool,
    pub width: Option<usize>,
    pub ids: Vec<String>,
}

/// What a listing was asked for.
pub struct OptsView {
    pub long: bool,
    pub cluster: bool,
    pub all_users: bool,
    pub user: Option<Seq<char>>,
    pub history: bool,
    pub watch: Option<u64>,
    pub points: bool,
    pub color: Option<bool>,
    pub ascii: bool,
    pub width: Option<usize>,
    pub ids: Seq<Seq<char>>,
}

impl View for Opts {
    type V = OptsView;

    open spec fn view(&self) -> OptsView {
        OptsView {
            long: self.long,
            cluster: self.cluster,
            all_users: self.all_users,
            user: pbs::opt_text(self.user),
            history: self.history,
            watch: self.watch,
            points: self.points,
            color: self.color,
            ascii: self.ascii,
            width: self.width,
            ids: text::texts(self.ids@),
        }
    }
}

/// What the command line asks for.
pub enum Request {
    Help,
    Version,
    Run(Opts),
}

/// What the command line asks for.
pub enum RequestView {
    Help,
    Version,
    Run(OptsView),
}

impl View for Request {
    type V = RequestView;

    open spec fn view(&self) -> RequestView {
        match *self {
            Request::Help => RequestView::Help,
            Request::Version => RequestView::Version,
            Request::Run(o) => RequestView::Run(o@),
        }
    }
}

/// The options of an empty command line.
pub open spec fn defaults() -> OptsView {
    OptsView {
        long: false,
        cluster: false,
        all_users: false,
        user: None,
        history: false,
        watch: None,
        points: true,
        color: None,
        ascii: false,
        width: None,
        ids: Seq::empty(),
    }
}

/// The options once the switch `a` is given; `None` where `a` is no switch.
pub open spec fn switched(o: OptsView, a: Seq<char>) -> Option<OptsView> {
    if a == "-l"@ || a == "--long"@ {
        Some(OptsView { long: true, ..o })
    } else if a == "-c"@ {
        Some(OptsView { cluster: true, ..o })
    } else if a == "-a"@ || a == "--all"@ {
        Some(OptsView { all_users: true, ..o })
    } else if a == "-x"@ || a == "--history"@ {
        Some(OptsView { history: true, ..o })
    } else if a == "--no-points"@ {
        Some(OptsView { points: false, ..o })
    } else if a == "--ascii"@ {
        Some(OptsView { ascii: true, ..o })
    } else {
        None
    }
}

/// What `--color` is told: `Some(None)` stands for `auto`.
pub open spec fn color_named(s: Seq<char>) -> Option<Option<bool>> {
    if s == "always"@ {
        Some(Some(true))
    } else if s == "never"@ {
        Some(Some(false))
    } else if s == "auto"@ {
        Some(None)
    } else {
        None
    }
}

/// What the arguments ask for, given the options that came before them; or a complaint.
pub open spec fn parsed(args: Seq<Seq<char>>, o: OptsView) -> Result<RequestView, Seq<char>>
    decreases args.len(),
{
    if args.len() == 0 {
        Ok(RequestView::Run(o))
    } else {
        let a = args[0];
        let rest = args.skip(1);
        if a == "-h"@ || a == "--help"@ {
            Ok(RequestView::Help)
        } else if a == "-V"@ || a == "--version"@ {
            Ok(RequestView::Version)
        } else if switched(o, a) is Some {
            parsed(rest, switched(o, a)->0)
        } else if a == "-u"@ || a == "--user"@ {
            if rest.len() == 0 {
                Err("--user needs a username"@)
            } else {
                parsed(rest.skip(1), OptsView { user: Some(rest[0]), ..o })
            }
        } else if a == "-w"@ || a == "--watch"@ {
            // The interval is optional: `-w` alone means every 10s.
            let secs = if rest.len() == 0 {
                None
            } else {
                digits::read_nat(rest[0], u64::MAX as nat)
            };
            match secs {
                Some(n) => parsed(
                    rest.skip(1),
                    OptsView {
                        watch: Some(
                            (if n > 1 {
                                n
                            } else {
                                1
                            }) as u64,
                        ),
                        ..o
                    },
                ),
                None => parsed(rest, OptsView { watch: Some(10), ..o }),
            }
        } else if a == "--color"@ {
            if rest.len() == 0 || color_named(rest[0]) is None {
                Err("--color takes always, never, or auto"@)
            } else {
                parsed(rest.skip(1), OptsView { color: color_named(rest[0])->0, ..o })
            }
        } else if a == "--width"@ {
            if rest.len() == 0 || digits::read_nat(rest[0], usize::MAX as nat) is None {
                Err("--width needs a number"@)
            } else {
                parsed(
                    rest.skip(1),
                    OptsView { width: Some(digits::read_nat(rest[0], usize::MAX as nat)->0 as usize), ..o },
                )
            }
        } else if a.len() > 0 && a[0] == '-' {
            Err("unknown option: "@ + a)
        } else {
            parsed(rest, OptsView { ids: o.ids.push(a), ..o })
        }
    }
}

/// Arguments that start with no hyphen are the ids of jobs, in order.
pub proof fn law_ids(args: Seq<Seq<char>>, o: OptsView)
    requires
        forall|i: int|
            0 <= i < args.len() ==> !((#[trigger] args[i]).len() > 0 && args[i][0] == '-'),
    ensures
        parsed(args, o) == Ok::<RequestView, Seq<char>>(
            RequestView::Run(OptsView { ids: o.ids + args, ..o }),
        ),
    decreases args.len(),
{
    if args.len() == 0 {
        assert(o.ids + args == o.ids);
    } else {
        let a = args[0];
        reveal_strlit("-h");
        reveal_strlit("--help");
        reveal_strlit("-V");
        reveal_strlit("--version");
        reveal_strlit("-l");
        reveal_strlit("--long");
        reveal_strlit("-c");
        reveal_strlit("-a");
        reveal_strlit("--all");
        reveal_strlit("-x");
        reveal_strlit("--history");
        reveal_strlit("--no-points");
        reveal_strlit("--ascii");
        reveal_strlit("-u");
        reveal_strlit("--user");
        reveal_strlit("-w");
        reveal_strlit("--watch");
        reveal_strlit("--color");
        reveal_strlit("--width");
        let rest = args.skip(1);
        let more = OptsView { ids: o.ids.push(a), ..o };
        assert forall|i: int| 0 <= i < rest.len() implies !((#[trigger] rest[i]).len() > 0
            && rest[i][0] == '-') by {
            assert(rest[i] == args[i + 1]);
        }
        law_ids(rest, more);
        assert(o.ids.push(a) + rest == o.ids + args);
    }
}

/// Does the request say what `expected` says?
pub open spec fn says(r: Result<Request, String>, expected: Result<RequestView, Seq<char>>) -> bool {
    match expected {
        Ok(v) => r matches Ok(q) && q@ == v,
        Err(e) => r matches Err(m) && m@ == e,
    }
}

/// Is `a` one of two spellings?
pub fn is_either(a: &str, x: &str, y: &str) -> (r: bool)
    ensures
        r == (a@ == x@ || a@ == y@),
{
    text::same(a, x) || text::same(a, y)
}

/// What `--color` is told.
pub fn read_color(s: &str) -> (r: Option<Option<bool>>)
    ensures
        r == color_named(s@),
{
    if text::same(s, "always") {
        Some(Some(true))
    } else if text::same(s, "never") {
        Some(Some(false))
    } else if text::same(s, "auto") {
        Some(None)
    } else {
        None
    }
}

/// Sets the switch `a`, where it is one.
fn set_switch(o: &mut Opts, a: &str) -> (r: bool)
    ensures
        r == (switched(old(o)@, a@) is Some),
        final(o)@ == (if r {
            switched(old(o)@, a@)->0
        } else {
            old(o)@
        }),
{
    if is_either(a, "-l", "--long") {
        o.long = true;
    } else if text::same(a, "-c") {
        o.cluster = true;
    } else if is_either(a, "-a", "--all") {
        o.all_users = true;
    } else if is_either(a, "-x", "--history") {
        o.history = true;
    } else if text::same(a, "--no-points") {
        o.points = false;
    } else if text::same(a, "--ascii") {
        o.ascii = true;
    } else {
        return false;
    }
    true
}

/// Does `a` start with a hyphen?
pub fn has_hyphen(a: &str) -> (r: bool)
    ensures
        r == (a@.len() > 0 && a@[0] == '-'),
{
    a.unicode_len() > 0 && a.get_char(0) == '-'
}

/// A complaint about an option that there is not.
pub fn unknown_option(a: &str) -> (r: String)
    ensures
        r@ == "unknown option: "@ + a@,
{
    let mut m = "unknown option: ".to_owned();
    m.append(a);
    m
}

/// What the arguments behind the program's name ask for.
pub fn parse_args(args: &Vec<String>) -> (r: Result<Request, String>)
    ensures
        says(r, parsed(text::texts(args@), defaults())),
{
    let mut o = Opts {
        long: false,
        cluster: false,
        all_users: false,
        user: None,
        history: false,
        watch: None,
        points: true,
        color: None,
        ascii: false,
        width: None,
        ids: Vec::new(),
    };
    let ghost all = text::texts(args@);
    assert(o@.ids == Seq::<Seq<char>>::empty());
    assert(all.skip(0) == all);
    let mut i: usize = 0;
    while i < args.len()
        invariant
            i <= args@.len(),
            all == text::texts(args@),
            parsed(all.skip(i as int), o@) == parsed(all, defaults()),
        decreases args@.len() - i,
    {
        let a = args[i].as_str();
        let ghost rest = all.skip(i as int).skip(1);
        let ghost before = o@;
        assert(all.skip(i as int)[0] == a@);
        assert(rest == all.skip(i + 1));
        if is_either(a, "-h", "--help") {
            return Ok(Request::Help);
        }
        if is_either(a, "-V", "--version") {
            return Ok(Request::Version);
        }
        if set_switch(&mut o, a) {
            i += 1;
            continue ;
        }
        if is_either(a, "-u", "--user") {
            i += 1;
            if i >= args.len() {
                return Err("--user needs a username".to_owned());
            }
            assert(rest[0] == args@[i as int]@ && rest.skip(1) == all.skip(i + 1));
            o.user = Some(args[i].clone());
        } else if is_either(a, "-w", "--watch") {
            let secs: Option<u64> = if i + 1 < args.len() {
                assert(rest[0] == args@[i + 1]@ && rest.skip(1) == all.skip(i + 2));
                digits::read_u64(args[i + 1].as_str())
            } else {
                None
            };
            match secs {
                Some(n) => {
                    o.watch = Some(
                        if n > 1 {
                            n
                        } else {
                            1
                        },
                    );
                    i += 1;
                },
                None => {
                    o.watch = Some(10);
                },
            }
        } else if text::same(a, "--color") {
            i += 1;
            if i >= args.len() {
                return Err("--color takes always, never, or auto".to_owned());
            }
            assert(rest[0] == args@[i as int]@ && rest.skip(1) == all.skip(i + 1));
            match read_color(args[i].as_str()) {
                Some(c) => {
                    o.color = c;
                },
                None => {
                    return Err("--color takes always, never, or auto".to_owned());
                },
            }
        } else if text::same(a, "--width") {
            i += 1;
            if i >= args.len() {
                return Err("--width needs a number".to_owned());
            }
            assert(rest[0] == args@[i as int]@ && rest.skip(1) == all.skip(i + 1));
            match digits::read_usize(args[i].as_str()) {
                Some(n) => {
                    o.width = Some(n);
                },
                None => {
                    return Err("--width needs a number".to_owned());
                },
            }
        } else if has_hyphen(a) {
            return Err(unknown_option(a));
        } else {
            o.ids.push(args[i].clone());
            assert(o@.ids == before.ids.push(a@));
        }
        i += 1;
    }
    Ok(Request::Run(o))
}

} // verus!
