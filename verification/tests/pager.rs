use qrich::follow::{Scroll, RING};
use qrich::json::parse;
use qrich::logs::{build_targets, Age, FileInfo, Target};
use qrich::pager::{
    pick, read_size, screen_size, show_picker, show_screen, Book, Page, Pick, Row,
};
use qrich::paint::Pal;
use qrich::pbs::{parse_job, point_rates, Job, RateCard};
use qrich::reals::{Figure, Fill, Real, Share};
use qrich::view::{Entry, Viewport};

const CLEAR: &str = "\u{1b}[H\u{1b}[J";

fn job(id: &str, text: &str) -> Job {
    match parse(text) {
        Ok(j) => parse_job(id, &j, 0),
        Err(e) => panic!("{}", e),
    }
}

fn jobs() -> Vec<Job> {
    vec![
        job(
            "193768.q",
            r#"{"Job_Name": "vrvq_after150", "job_state": "R", "Output_Path": "/l/a", "Join_Path": "oe",
                "Resource_List": {"rt_QF": 1, "nodect": 1, "ngpus": 4, "walltime": "48:00:00"},
                "resources_used": {"walltime": "16:08:00"}, "exec_vnode": "(qh391:a)"}"#,
        ),
        job(
            "194232.q",
            r#"{"Job_Name": "orig_run", "job_state": "Q", "Output_Path": "/l/b", "Join_Path": "oe"}"#,
        ),
        job(
            "194327.q",
            r#"{"Job_Name": "train_b", "job_state": "R", "Output_Path": "/l/c", "Error_Path": "/l/d"}"#,
        ),
    ]
}

fn figure(whole: &str) -> Figure {
    let v: f64 = whole.parse().unwrap();
    Figure {
        value: Real { bits: v.to_bits() },
        whole: whole.to_string(),
        tenth: format!("{}.0", whole),
        rounded: v as u64,
        near_whole: true,
    }
}

fn entry(j: &Job) -> Entry {
    let empty = || Fill { cells: 0, eighths: 0 };
    Entry {
        job: j,
        share: Share {
            value: Real { bits: (0.336f64).to_bits() },
            percent: "34".to_string(),
            percent_tenth: "33.6".to_string(),
        },
        bar: empty(),
        card_bar: empty(),
        rate: figure("5"),
        spent: figure("81"),
        reserved: figure("240"),
        load: None,
    }
}

fn viewport<'a>(rates: &'a RateCard, width: usize, color: bool) -> Viewport<'a> {
    Viewport { color, ascii: false, width, long: false, show_points: true, rates, tz: 0, now: 0 }
}

fn row(target: usize, line: &str) -> Row {
    Row { target, line: line.to_string(), sys: false }
}

fn shown(p: &Page, height: usize) -> Vec<String> {
    let (from, to) = p.span(height);
    p.rows[from..to].iter().map(|r| r.line.clone()).collect()
}

fn filled(n: usize) -> Page {
    let mut p = Page::new();
    for i in 0..n {
        p.push(row(0, &i.to_string()));
    }
    p
}

#[test]
fn a_page_shows_its_newest_lines() {
    let mut p = filled(2);
    assert_eq!(shown(&p, 3), ["0", "1"]);
    p.push(row(0, "2"));
    p.push(row(0, "3"));
    assert_eq!(shown(&p, 3), ["1", "2", "3"]);
    assert_eq!((p.up, p.fresh), (0, 0));
}

#[test]
fn a_page_scrolls_by_halves() {
    let mut p = filled(20);
    p.scroll(&Scroll::HalfUp, 4);
    assert_eq!(shown(&p, 4), ["14", "15", "16", "17"]);
    p.scroll(&Scroll::HalfUp, 4);
    p.scroll(&Scroll::HalfDown, 4);
    assert_eq!(shown(&p, 4), ["14", "15", "16", "17"]);
    p.scroll(&Scroll::Oldest, 4);
    assert_eq!(shown(&p, 4), ["0", "1", "2", "3"]);
    p.scroll(&Scroll::HalfUp, 4);
    assert_eq!(shown(&p, 4), ["0", "1", "2", "3"]);
    p.scroll(&Scroll::Newest, 4);
    assert_eq!(shown(&p, 4), ["16", "17", "18", "19"]);
    p.scroll(&Scroll::HalfDown, 4);
    assert_eq!(p.up, 0);
    p.scroll(&Scroll::HalfUp, 1);
    assert_eq!(p.up, 1);
    let mut short = filled(3);
    short.scroll(&Scroll::HalfUp, 4);
    assert_eq!(short.up, 0);
}

#[test]
fn a_scrolled_page_stays_and_counts() {
    let mut p = filled(20);
    p.scroll(&Scroll::HalfUp, 4);
    p.push(row(0, "20"));
    p.push(row(0, "21"));
    assert_eq!(shown(&p, 4), ["14", "15", "16", "17"]);
    assert_eq!((p.up, p.fresh), (4, 2));
    p.scroll(&Scroll::HalfDown, 6);
    assert_eq!((p.up, p.fresh), (1, 1));
    p.scroll(&Scroll::Newest, 4);
    assert_eq!((p.up, p.fresh), (0, 0));
    p.push(row(0, "22"));
    assert_eq!(shown(&p, 2), ["21", "22"]);
}

#[test]
fn a_page_keeps_a_few_thousand_lines() {
    let mut p = filled(RING + 5);
    assert_eq!(p.rows.len(), 3000);
    assert_eq!(p.rows[0].line, "5");
    p.scroll(&Scroll::HalfUp, 10);
    let before = shown(&p, 10);
    p.push(row(0, "new"));
    assert_eq!(p.rows.len(), 3000);
    assert_eq!(shown(&p, 10), before);
    p.scroll(&Scroll::Oldest, 10);
    for _ in 0..20 {
        p.push(row(0, "more"));
    }
    assert_eq!(p.up, 3000);
    assert_eq!(shown(&p, 1), ["26"]);
}

#[test]
fn lines_go_to_the_page_of_their_job_and_of_all() {
    let mut b = Book::new(2, None);
    b.deliver(0, row(0, "one"), None);
    assert_eq!(b.pages[0].rows.len(), 1);
    assert_eq!(b.pages[1].rows[0].line, "one");
    assert!(b.pages[2].rows.is_empty());
    // Nothing is hidden on the page of all.
    assert!(!b.pages[1].marked);
    b.turn(1);
    b.deliver(1, row(1, "two"), None);
    assert!(b.pages[2].marked && !b.pages[1].marked);
    b.deliver(0, row(0, "three"), None);
    assert!(!b.pages[1].marked);
    b.turn(2);
    assert!(!b.pages[2].marked);
    assert_eq!(b.pages[0].rows.len(), 3);
}

#[test]
fn status_lines_mark_nothing_and_patterns_select() {
    let mut b = Book::new(2, Some(0));
    assert_eq!((b.open, b.solo()), (1, Some(0)));
    b.deliver(1, Row { target: 1, line: "log file appeared".to_string(), sys: true }, Some(("x", false)));
    assert_eq!(b.pages[2].rows.len(), 1);
    assert!(!b.pages[2].marked);
    b.deliver(1, row(1, "no match"), Some(("x", false)));
    assert_eq!(b.pages[2].rows.len(), 1);
    b.deliver(1, row(1, "A Xylophone"), Some(("x", true)));
    assert_eq!(b.pages[2].rows.len(), 2);
    assert!(b.pages[2].marked);
}

#[test]
fn keys_turn_and_scroll() {
    let mut b = Book::new(3, None);
    for i in 0..10 {
        b.deliver(1, row(0, &i.to_string()), None);
    }
    for (key, page) in [(b'j', 1), (b'j', 2), (b'k', 1), (b'k', 3), (b'j', 1), (b'a', 0), (b'2', 2)] {
        assert!(b.press(key, 4));
        assert_eq!(b.open, page);
    }
    assert!(b.press(b'u', 4));
    assert_eq!((b.pages[2].up, b.pages[0].up), (2, 0));
    assert!(b.press(b'g', 4));
    assert_eq!(b.pages[2].up, 6);
    // A page keeps its place while another is open.
    assert!(b.press(b'1', 4) && b.press(b'2', 4));
    assert_eq!(b.pages[2].up, 6);
    assert!(b.press(b'd', 4));
    assert_eq!(b.pages[2].up, 4);
    assert!(b.press(b'G', 4));
    assert_eq!(b.pages[2].up, 0);
    assert!(b.press(b'9', 4) && b.press(b'x', 4) && b.press(b'l', 4));
    assert_eq!(b.open, 2);
    for k in [b'q', 3, 4, 27] {
        assert!(!b.press(k, 4));
    }
}

#[test]
fn the_page_of_a_job_fills_the_screen() {
    let js = jobs();
    let refs: Vec<&Job> = js.iter().collect();
    let ts = build_targets(&refs);
    let entries: Vec<Entry> = js.iter().map(entry).collect();
    let rates = point_rates(&Vec::new());
    let mut b = Book::new(3, Some(0));
    b.deliver(0, row(0, "iter 10  reward mean -4.33 dB"), None);
    b.deliver(1, row(1, "x"), None);
    let text = show_screen(&b, &entries, &ts, None, 3, &viewport(&rates, 120, false));
    assert_eq!(
        text,
        [
            CLEAR,
            " ● 193768 vrvq_after150 — running · rt_QF · 4 GPU · wall 34% (16:08/48:00) · 81/240 pt · qh391\n",
            "iter 10  reward mean -4.33 dB\n",
            "\n\n",
            " a:all  [1:193768 vrvq_…]  2:194232* orig_…  3:194327 train…   j/k page · u/d scroll · q quit",
        ]
        .concat()
    );
}

#[test]
fn a_narrow_screen_cuts_its_lines() {
    let js = jobs();
    let refs: Vec<&Job> = js.iter().collect();
    let ts = build_targets(&refs);
    let entries: Vec<Entry> = js.iter().map(entry).collect();
    let rates = point_rates(&Vec::new());
    let mut b = Book::new(3, Some(1));
    for i in 0..5 {
        b.deliver(1, row(1, &format!("line {} is longer than the screen is wide, by far", i)), None);
    }
    b.press(b'u', 2);
    b.deliver(1, row(1, "new"), None);
    let text = show_screen(&b, &entries, &ts, None, 2, &viewport(&rates, 40, false));
    assert_eq!(
        text,
        [
            CLEAR,
            " ● 194232 orig_run —… · 1 new line below\n",
            "line 2 is longer than the screen is wid…\n",
            "line 3 is longer than the screen is wid…\n",
            " a:all…   j/k page · u/d scroll · q quit",
        ]
        .concat()
    );
    for w in 0..60usize {
        let text = show_screen(&b, &entries, &ts, None, 2, &viewport(&rates, w, false));
        assert!(text[CLEAR.len()..].split('\n').all(|l| l.chars().count() <= w));
    }
}

#[test]
fn the_page_of_all_names_the_logs() {
    let js = jobs();
    let refs: Vec<&Job> = js.iter().collect();
    let ts = build_targets(&refs);
    assert_eq!(ts.len(), 4);
    let entries: Vec<Entry> = js.iter().map(entry).collect();
    let rates = point_rates(&Vec::new());
    let mut b = Book::new(3, None);
    b.deliver(0, row(0, "a loss"), None);
    b.deliver(2, row(3, "b"), None);
    b.deliver(1, Row { target: 1, line: "log file appeared".to_string(), sys: true }, None);
    let text = show_screen(&b, &entries, &ts, None, 3, &viewport(&rates, 40, false));
    assert_eq!(
        text,
        [
            CLEAR,
            " ● all jobs — 3 jobs · 4 logs\n",
            "[193768  ] a loss\n",
            "[194327.e] b\n",
            "[194232  ] log file appeared\n",
            " [a:al…   j/k page · u/d scroll · q quit",
        ]
        .concat()
    );
    let grep = Some(("los", false));
    let text = show_screen(&b, &entries, &ts, grep, 3, &viewport(&rates, 60, true));
    assert!(text.starts_with(&[CLEAR, "\u{1b}[1m ● all jobs — 3 jobs · 4 logs\u{1b}[0m\n"].concat()));
    assert!(text.contains("\u{1b}[36m[193768  ] \u{1b}[0ma \u{1b}[1;31mlos\u{1b}[0ms\n"));
    assert!(text.contains("\u{1b}[35m[194232  ] \u{1b}[0m\u{1b}[2mlog file appeared\u{1b}[0m\n"));
    b.turn(2);
    let text = show_screen(&b, &entries, &ts, None, 3, &viewport(&rates, 60, true));
    assert!(text.starts_with(&[CLEAR, "\u{1b}[35m ● 194232 orig_run — queued · -\u{1b}[0m\n"].concat()));
}

#[test]
fn a_job_without_logs_says_so() {
    let js = vec![job("1.q", r#"{"Output_Path": "/l/a"}"#), job("2.q", r#"{"Output_Path": "/dev/null"}"#)];
    let refs: Vec<&Job> = js.iter().collect();
    let ts = build_targets(&refs);
    let entries: Vec<Entry> = js.iter().map(entry).collect();
    let rates = point_rates(&Vec::new());
    let text =
        |solo: usize, w: usize| show_screen(&Book::new(2, Some(solo)), &entries, &ts, None, 3, &viewport(&rates, w, false));
    assert!(text(1, 60).contains("\n (no log files for this job)\n\n\n a:all"));
    assert!(text(1, 9).contains("\n (no log…\n\n\n"));
    assert!(!text(0, 60).contains("no log files"));
}

#[test]
fn jobs_beyond_the_keys_have_tabs() {
    let js: Vec<Job> = (0..11).map(|i| job(&format!("{}.q", i), r#"{"Job_Name": "n"}"#)).collect();
    let refs: Vec<&Job> = js.iter().collect();
    let ts = build_targets(&refs);
    let entries: Vec<Entry> = js.iter().map(entry).collect();
    let rates = point_rates(&Vec::new());
    let b = Book::new(11, Some(10));
    let text = show_screen(&b, &entries, &ts, None, 1, &viewport(&rates, 200, false));
    assert!(text.ends_with("  8:7 n  9:8 n  9 n  [10 n]   j/k page · u/d scroll · q quit"));
}

#[test]
fn the_screen_has_a_size() {
    assert_eq!(read_size("24 80"), Some((24, 80)));
    assert_eq!(screen_size(b" 50 132\n"), Some((50, 132)));
    assert_eq!(read_size("3 1"), Some((3, 1)));
    assert_eq!(read_size("2 80"), None);
    assert_eq!(read_size("24 0"), None);
    assert_eq!(read_size("24"), None);
    assert_eq!(read_size("a 80"), None);
    assert_eq!(screen_size(b""), None);
}

fn at(key: u8, cursor: usize, ts: &Vec<Target>) -> usize {
    match pick(key, cursor, ts) {
        Pick::Cursor(c) => c,
        _ => panic!("the cursor does not move"),
    }
}

#[test]
fn a_log_is_picked() {
    let js = jobs();
    let refs: Vec<&Job> = js.iter().collect();
    let ts = build_targets(&refs);
    assert_eq!((at(b'j', 0, &ts), at(b'j', 3, &ts)), (1, 3));
    assert_eq!((at(b'k', 3, &ts), at(b'k', 0, &ts)), (2, 0));
    for c in 0..3 {
        assert_eq!(at(b'k', at(b'j', c, &ts), &ts), c);
    }
    // The last log is the other one of the last job.
    assert!(matches!(pick(b'\n', 3, &ts), Pick::Open(Some(2))));
    assert!(matches!(pick(b'\r', 1, &ts), Pick::Open(Some(1))));
    assert!(matches!(pick(b'4', 0, &ts), Pick::Open(Some(2))));
    assert!(matches!(pick(b'1', 3, &ts), Pick::Open(Some(0))));
    assert!(matches!(pick(b'5', 0, &ts), Pick::Ignore));
    assert!(matches!(pick(b'f', 2, &ts), Pick::Open(None)));
    assert!(matches!(pick(b'x', 2, &ts), Pick::Ignore));
    for k in [b'q', 3, 4, 27] {
        assert!(matches!(pick(k, 0, &ts), Pick::Quit));
    }
}

#[test]
fn the_picker_shows_the_cursor() {
    let js = jobs();
    let refs: Vec<&Job> = js.iter().collect();
    let ts = build_targets(&refs);
    let files = vec![
        Some(FileInfo { len: 12, age: Age::Secs(5) }),
        None,
        None,
        Some(FileInfo { len: 2048, age: Age::Secs(7200) }),
    ];
    assert_eq!(
        show_picker(&ts, &files, 1, 80, 9, Pal { on: false }),
        [
            CLEAR,
            "   ID       S  NAME                      SIZE   WRITE PATH\n",
            " 1 193768   R  vrvq_after150             12 B      5s /l/a\n",
            ">2 194232   Q  orig_run                     -       - /l/b\n",
            " 3 194327   R  train_b                      -       - /l/c\n",
            " 4 194327.e R  train_b                  2 KiB      2h /l/d\n",
            " j/k move · Enter open · 1-9 open · f all · q quit",
        ]
        .concat()
    );
    let lines = |cursor: usize, height: usize| -> Vec<String> {
        let text = show_picker(&ts, &files, cursor, 80, height, Pal { on: false });
        let rows: Vec<String> = text.lines().skip(1).map(|l| l[..2].to_string()).collect();
        rows[..rows.len() - 1].to_vec()
    };
    assert_eq!(lines(0, 2), [">1", " 2"]);
    assert_eq!(lines(1, 2), [" 1", ">2"]);
    assert_eq!(lines(2, 2), [" 2", ">3"]);
    assert_eq!(lines(3, 1), [">4"]);
}
