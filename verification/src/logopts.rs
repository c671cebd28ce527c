//! The command line of the log tool.

use crate::digits;
use crate::opts;
use crate::pbs;
use crate::text;
use vstd::prelude::*;

verus! {

/// What the log tool was asked for.
pub struct Opts {
    pub follow: bool,
    pub grep: Option<String>,
    pub icase: bool,
    pub context: usize,
    pub tail: usize,
    pub history: bool,
    pub all_users: bool,
    pub user: Option<String>,
    pub paths: bool,
    pub color: Option<bool>,
    pub ids: Vec<String>,
}

/// What the log tool was asked for.
pub struct OptsView {
    pub follow: bool,
    pub grep: Option<Seq<char>>,
    pub icase: bool,
    pub context: usize,
    pub tail: usize,
    pub history: bool,
    pub all_users: bool,
    pub user: Option<Seq<char>>,
    pub paths: bool,
    pub color: Option<bool>,
    pub ids: Seq<Seq<char>>,
}

impl View for Opts {
    type V = OptsView;

    open spec fn view(&self) -> OptsView {
        OptsView {
            follow: self.follow,
            grep: pbs::opt_text(self.grep),
            icase: self.icase,
            context: self.context,
            tail: self.tail,
            history: self.history,
            all_users: self.all_users,
            user: pbs::opt_text(self.user),
            paths: self.paths,
            color: self.color,
            ids: text::texts(self.ids@),
        }
    }
}

/// What the command line asks for.
pub enum Request {
    Help,
    Version,
    Run(Opts),
}

/// What the command line asks for.
pub enum RequestView {
    Help,
    Version,
    Run(OptsView),
}

impl View for Request {
    type V = RequestView;

    open spec fn view(&self) -> RequestView {
        match *self {
            Request::Help => RequestView::Help,
            Request::Version => RequestView::Version,
            Request::Run(o) => RequestView::Run(o@),
        }
    }
}

/// The options of an empty command line.
pub open spec fn defaults() -> OptsView {
    OptsView {
        follow: false,
        grep: None,
        icase: false,
        context: 0,
        tail: 10,
        history: false,
        all_users: false,
        user: None,
        paths: false,
        color: None,
        ids: Seq::empty(),
    }
}

/// The options once the switch `a` is given; `None` where `a` is no switch.
pub open spec fn switched(o: OptsView, a: Seq<char>) -> Option<OptsView> {
    if a == "-f"@ || a == "--follow"@ {
        Some(OptsView { follow: true, ..o })
    } else if a == "-p"@ || a == "--paths"@ {
        Some(OptsView { paths: true, ..o })
    } else if a == "-i"@ || a == "--ignore-case"@ {
        Some(OptsView { icase: true, ..o })
    } else if a == "-x"@ || a == "--history"@ {
        Some(OptsView { history: true, ..o })
    } else if a == "-a"@ || a == "--all"@ {
        Some(OptsView { all_users: true, ..o })
    } else {
        None
    }
}

/// The options that take a value.
pub enum Valued {
    Grep,
    User,
    Context,
    Tail,
    Color,
}

/// The option that `a` names, where it takes a value.
pub open spec fn valued(a: Seq<char>) -> Option<Valued> {
    if a == "-g"@ || a == "--grep"@ {
        Some(Valued::Grep)
    } else if a == "-u"@ || a == "--user"@ {
        Some(Valued::User)
    } else if a == "-C"@ || a == "--context"@ {
        Some(Valued::Context)
    } else if a == "-n"@ || a == "--tail"@ {
        Some(Valued::Tail)
    } else if a == "--color"@ {
        Some(Valued::Color)
    } else {
        None
    }
}

/// What is said where an option lacks its value.
pub open spec fn complaint(v: Valued) -> Seq<char> {
    match v {
        Valued::Grep => "--grep needs a pattern"@,
        Valued::User => "--user needs a username"@,
        Valued::Context => "--context needs a number"@,
        Valued::Tail => "--tail needs a number"@,
        Valued::Color => "--color takes always, never, or auto"@,
    }
}

/// The options once `v` has the value `s`; `None` where it cannot have it.
pub open spec fn assigned(o: OptsView, v: Valued, s: Seq<char>) -> Option<OptsView> {
    let number = digits::read_nat(s, usize::MAX as nat);
    match v {
        Valued::Grep => Some(OptsView { grep: Some(s), ..o }),
        Valued::User => Some(OptsView { user: Some(s), ..o }),
        Valued::Context => match number {
            Some(n) => Some(OptsView { context: n as usize, ..o }),
            None => None,
        },
        Valued::Tail => match number {
            Some(n) => Some(OptsView { tail: n as usize, ..o }),
            None => None,
        },
        Valued::Color => match opts::color_named(s) {
            Some(c) => Some(OptsView { color: c, ..o }),
            None => None,
        },
    }
}

/// What the arguments ask for, given the options that came before them; or a complaint.
pub open spec fn parsed(args: Seq<Seq<char>>, o: OptsView) -> Result<RequestView, Seq<char>>
    decreases args.len(),
{
    if args.len() == 0 {
        Ok(RequestView::Run(o))
    } else {
        let a = args[0];
        let rest = args.skip(1);
        if a == "-h"@ || a == "--help"@ {
            Ok(RequestView::Help)
        } else if a == "-V"@ || a == "--version"@ {
            Ok(RequestView::Version)
        } else if switched(o, a) is Some {
            parsed(rest, switched(o, a)->0)
        } else if valued(a) is Some {
            if rest.len() == 0 || assigned(o, valued(a)->0, rest[0]) is None {
                Err(complaint(valued(a)->0))
            } else {
                parsed(rest.skip(1), assigned(o, valued(a)->0, rest[0])->0)
            }
        } else if a.len() > 0 && a[0] == '-' {
            Err("unknown option: "@ + a)
        } else {
            parsed(rest, OptsView { ids: o.ids.push(a), ..o })
        }
    }
}

/// Arguments that start with no hyphen are the ids of jobs, in order.
pub proof fn law_ids(args: Seq<Seq<char>>, o: OptsView)
    requires
        forall|i: int|
            0 <= i < args.len() ==> !((#[trigger] args[i]).len() > 0 && args[i][0] == '-'),
    ensures
        parsed(args, o) == Ok::<RequestView, Seq<char>>(
            RequestView::Run(OptsView { ids: o.ids + args, ..o }),
        ),
    decreases args.len(),
{
    if args.len() == 0 {
        assert(o.ids + args == o.ids);
    } else {
        let a = args[0];
        reveal_strlit("-h");
        reveal_strlit("--help");
        reveal_strlit("-V");
        reveal_strlit("--version");
        reveal_strlit("-f");
        reveal_strlit("--follow");
        reveal_strlit("-p");
        reveal_strlit("--paths");
        reveal_strlit("-i");
        reveal_strlit("--ignore-case");
        reveal_strlit("-x");
        reveal_strlit("--history");
        reveal_strlit("-a");
        reveal_strlit("--all");
        reveal_strlit("-g");
        reveal_strlit("--grep");
        reveal_strlit("-u");
        reveal_strlit("--user");
        reveal_strlit("-C");
        reveal_strlit("--context");
        reveal_strlit("-n");
        reveal_strlit("--tail");
        reveal_strlit("--color");
        let rest = args.skip(1);
        let more = OptsView { ids: o.ids.push(a), ..o };
        assert forall|i: int| 0 <= i < rest.len() implies !((#[trigger] rest[i]).len() > 0
            && rest[i][0] == '-') by {
            assert(rest[i] == args[i + 1]);
        }
        law_ids(rest, more);
        assert(o.ids.push(a) + rest == o.ids + args);
    }
}

/// Does the request say what `expected` says?
pub open spec fn says(r: Result<Request, String>, expected: Result<RequestView, Seq<char>>) -> bool {
    match expected {
        Ok(v) => r matches Ok(q) && q@ == v,
        Err(e) => r matches Err(m) && m@ == e,
    }
}

/// Sets the switch `a`, where it is one.
fn set_switch(o: &mut Opts, a: &str) -> (r: bool)
    ensures
        r == (switched(old(o)@, a@) is Some),
        final(o)@ == (if r {
            switched(old(o)@, a@)->0
        } else {
            old(o)@
        }),
{
    if opts::is_either(a, "-f", "--follow") {
        o.follow = true;
    } else if opts::is_either(a, "-p", "--paths") {
        o.paths = true;
    } else if opts::is_either(a, "-i", "--ignore-case") {
        o.icase = true;
    } else if opts::is_either(a, "-x", "--history") {
        o.history = true;
    } else if opts::is_either(a, "-a", "--all") {
        o.all_users = true;
    } else {
        return false;
    }
    true
}

/// The option that `a` names, where it takes a value.
fn find_valued(a: &str) -> (r: Option<Valued>)
    ensures
        r == valued(a@),
{
    if opts::is_either(a, "-g", "--grep") {
        Some(Valued::Grep)
    } else if opts::is_either(a, "-u", "--user") {
        Some(Valued::User)
    } else if opts::is_either(a, "-C", "--context") {
        Some(Valued::Context)
    } else if opts::is_either(a, "-n", "--tail") {
        Some(Valued::Tail)
    } else if text::same(a, "--color") {
        Some(Valued::Color)
    } else {
        None
    }
}

/// What is said where an option lacks its value.
fn complain(v: &Valued) -> (r: String)
    ensures
        r@ == complaint(*v),
{
    match v {
        Valued::Grep => "--grep needs a pattern".to_owned(),
        Valued::User => "--user needs a username".to_owned(),
        Valued::Context => "--context needs a number".to_owned(),
        Valued::Tail => "--tail needs a number".to_owned(),
        Valued::Color => "--color takes always, never, or auto".to_owned(),
    }
}

/// Gives `v` the value `s`, where it can have it.
fn set_value(o: &mut Opts, v: &Valued, s: &String) -> (r: bool)
    ensures
        r == (assigned(old(o)@, *v, s@) is Some),
        r ==> final(o)@ == assigned(old(o)@, *v, s@)->0,
{
    match v {
        Valued::Grep => {
            o.grep = Some(s.clone());
        },
        Valued::User => {
            o.user = Some(s.clone());
        },
        Valued::Context => match digits::read_usize(s.as_str()) {
            Some(n) => {
                o.context = n;
            },
            None => {
                return false;
            },
        },
        Valued::Tail => match digits::read_usize(s.as_str()) {
            Some(n) => {
                o.tail = n;
            },
            None => {
                return false;
            },
        },
        Valued::Color => match opts::read_color(s.as_str()) {
            Some(c) => {
                o.color = c;
            },
            None => {
                return false;
            },
        },
    }
    true
}

/// What the arguments behind the program's name ask for.
pub fn parse_args(args: &Vec<String>) -> (r: Result<Request, String>)
    ensures
        says(r, parsed(text::texts(args@), defaults())),
{
    let mut o = Opts {
        follow: false,
        grep: None,
        icase: false,
        context: 0,
        tail: 10,
        history: false,
        all_users: false,
        user: None,
        paths: false,
        color: None,
        ids: Vec::new(),
    };
    let ghost all = text::texts(args@);
    assert(o@.ids == Seq::<Seq<char>>::empty());
    assert(all.skip(0) == all);
    let mut i: usize = 0;
    while i < args.len()
        invariant
            i <= args@.len(),
            all == text::texts(args@),
            parsed(all.skip(i as int), o@) == parsed(all, defaults()),
        decreases args@.len() - i,
    {
        let a = args[i].as_str();
        let ghost rest = all.skip(i as int).skip(1);
        let ghost before = o@;
        assert(all.skip(i as int)[0] == a@);
        assert(rest == all.skip(i + 1));
        if opts::is_either(a, "-h", "--help") {
            return Ok(Request::Help);
        }
        if opts::is_either(a, "-V", "--version") {
            return Ok(Request::Version);
        }
        if !set_switch(&mut o, a) {
            match find_valued(a) {
                Some(v) => {
                    i += 1;
                    if i >= args.len() {
                        return Err(complain(&v));
                    }
                    assert(rest[0] == args@[i as int]@ && rest.skip(1) == all.skip(i + 1));
                    if !set_value(&mut o, &v, &args[i]) {
                        return Err(complain(&v));
                    }
                },
                None => {
                    if opts::has_hyphen(a) {
                        return Err(opts::unknown_option(a));
                    }
                    o.ids.push(args[i].clone());
                    assert(o@.ids == before.ids.push(a@));
                },
            }
        }
        i += 1;
    }
    Ok(Request::Run(o))
}

} // verus!
