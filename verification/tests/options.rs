use qrich::logopts;
use qrich::opts;

fn args(list: &[&str]) -> Vec<String> {
    list.iter().map(|s| s.to_string()).collect()
}

fn asked(list: &[&str]) -> opts::Opts {
    match opts::parse_args(&args(list)) {
        Ok(opts::Request::Run(o)) => o,
        _ => panic!("no listing"),
    }
}

fn refused(list: &[&str]) -> String {
    match opts::parse_args(&args(list)) {
        Err(e) => e,
        _ => panic!("no complaint"),
    }
}

fn log_asked(list: &[&str]) -> logopts::Opts {
    match logopts::parse_args(&args(list)) {
        Ok(logopts::Request::Run(o)) => o,
        _ => panic!("no run"),
    }
}

fn log_refused(list: &[&str]) -> String {
    match logopts::parse_args(&args(list)) {
        Err(e) => e,
        _ => panic!("no complaint"),
    }
}

#[test]
fn an_empty_command_line_has_defaults() {
    let o = asked(&[]);
    assert!(!o.long && !o.cluster && !o.all_users && !o.history && !o.ascii && o.points);
    assert!(o.user.is_none() && o.watch.is_none() && o.color.is_none() && o.width.is_none());
    assert!(o.ids.is_empty());
}

#[test]
fn listing_options_are_read() {
    let o = asked(&[
        "-l", "--all", "-x", "--no-points", "--ascii", "-u", "bob", "--color", "never", "--width", "132", "7", "8",
    ]);
    assert!(o.long && o.all_users && o.history && !o.points && o.ascii);
    assert_eq!(o.user.as_deref(), Some("bob"));
    assert_eq!(o.color, Some(false));
    assert_eq!(o.width, Some(132));
    assert_eq!(o.ids, ["7", "8"]);
    let o = asked(&["--long", "-a", "--history", "--user", "-x", "--color", "always", "--color", "auto"]);
    assert!(o.long && o.all_users && o.history);
    assert_eq!(o.user.as_deref(), Some("-x"));
    assert_eq!(o.color, None);
    assert_eq!(asked(&["--color", "always"]).color, Some(true));
    let o = asked(&["-c", "-w", "30"]);
    assert!(o.cluster && !o.long);
    assert_eq!(o.watch, Some(30));
    assert!(!asked(&["-l"]).cluster);
}

#[test]
fn the_interval_is_optional() {
    assert_eq!(asked(&["-w"]).watch, Some(10));
    assert_eq!(asked(&["--watch", "30"]).watch, Some(30));
    assert_eq!(asked(&["-w", "0"]).watch, Some(1));
    let o = asked(&["-w", "x5"]);
    assert_eq!(o.watch, Some(10));
    assert_eq!(o.ids, ["x5"]);
    assert!(asked(&["-w", "-l"]).long);
}

#[test]
fn help_and_version_come_first() {
    assert!(matches!(opts::parse_args(&args(&["-l", "-h", "--bad"])), Ok(opts::Request::Help)));
    assert!(matches!(opts::parse_args(&args(&["--help"])), Ok(opts::Request::Help)));
    assert!(matches!(opts::parse_args(&args(&["-V"])), Ok(opts::Request::Version)));
    assert!(matches!(opts::parse_args(&args(&["--version", "-h"])), Ok(opts::Request::Version)));
}

#[test]
fn bad_listing_options_are_refused() {
    assert_eq!(refused(&["--bad", "-h"]), "unknown option: --bad");
    assert_eq!(refused(&["-"]), "unknown option: -");
    assert_eq!(refused(&["-u"]), "--user needs a username");
    assert_eq!(refused(&["--color"]), "--color takes always, never, or auto");
    assert_eq!(refused(&["--color", "red"]), "--color takes always, never, or auto");
    assert_eq!(refused(&["--width"]), "--width needs a number");
    assert_eq!(refused(&["--width", "-5"]), "--width needs a number");
}

#[test]
fn log_options_are_read() {
    let o = log_asked(&[]);
    assert!(!o.follow && !o.icase && !o.history && !o.all_users && !o.paths);
    assert_eq!((o.context, o.tail), (0, 10));
    assert!(o.grep.is_none() && o.user.is_none() && o.color.is_none() && o.ids.is_empty());
    let o = log_asked(&[
        "-f", "-g", "CUDA out", "-i", "-C", "2", "-n", "50", "-x", "-a", "-u", "bob", "-p", "--color", "always", "9",
    ]);
    assert!(o.follow && o.icase && o.history && o.all_users && o.paths);
    assert_eq!(o.grep.as_deref(), Some("CUDA out"));
    assert_eq!((o.context, o.tail), (2, 50));
    assert_eq!(o.user.as_deref(), Some("bob"));
    assert_eq!(o.color, Some(true));
    assert_eq!(o.ids, ["9"]);
    let o = log_asked(&["--follow", "--paths", "--ignore-case", "--history", "--all", "--grep", "", "--user", "u",
        "--context", "1", "--tail", "0"]);
    assert!(o.follow && o.paths && o.icase && o.history && o.all_users);
    assert_eq!(o.grep.as_deref(), Some(""));
    assert_eq!((o.context, o.tail), (1, 0));
}

#[test]
fn bad_log_options_are_refused() {
    assert_eq!(log_refused(&["-z"]), "unknown option: -z");
    assert_eq!(log_refused(&["-g"]), "--grep needs a pattern");
    assert_eq!(log_refused(&["-u"]), "--user needs a username");
    assert_eq!(log_refused(&["-C"]), "--context needs a number");
    assert_eq!(log_refused(&["-C", "x"]), "--context needs a number");
    assert_eq!(log_refused(&["-n"]), "--tail needs a number");
    assert_eq!(log_refused(&["--tail", "1.5"]), "--tail needs a number");
    assert_eq!(log_refused(&["--color", "x"]), "--color takes always, never, or auto");
    assert!(matches!(logopts::parse_args(&args(&["-h"])), Ok(logopts::Request::Help)));
    assert!(matches!(logopts::parse_args(&args(&["-V"])), Ok(logopts::Request::Version)));
}
