use qrich::find::{find_ci, highlight};
use qrich::follow::{
    banner, deliver, emit, heading, is_visible, keep, press, print_mapping, route, split_lines,
    switch, Action, Ask, Route, Screen, Scroll, Stream, MAX_READ, RING,
    TAIL_SCAN,
};
use qrich::json::parse;
use qrich::logs::{
    build_targets, job_color, label_width, list, list_paths, mode, Age, FileInfo, Mode, Target,
};
use qrich::logtext::{after_last_cr, ago, cap, display_bytes, ellipsize_front, human_bytes};
use qrich::paint::Pal;
use qrich::pbs::{parse_job, Job};
use qrich::search::{
    count_file, has_match, refuse_search, search_line, search_raw, search_status, step, strip_lf,
    summary, Query, Search, Shown, Tally,
};

fn job(id: &str, text: &str) -> Job {
    match parse(text) {
        Ok(j) => parse_job(id, &j, 0),
        Err(e) => panic!("{}", e),
    }
}

const OFF: Pal = Pal { on: false };
const ON: Pal = Pal { on: true };

// ---------------------------------------------------------------------------
// finding
// ---------------------------------------------------------------------------

#[test]
fn bytes_are_found() {
    assert_eq!(find_ci(b"hello", b"l", false), Some(2));
    assert_eq!(find_ci(b"hello", b"LL", false), None);
    assert_eq!(find_ci(b"hello", b"LL", true), Some(2));
    assert_eq!(find_ci(b"HeLLo", b"hello", true), Some(0));
    assert_eq!(find_ci(b"abc", b"", false), None);
    assert_eq!(find_ci(b"", b"a", false), None);
    assert_eq!(find_ci(b"ab", b"abc", false), None);
    assert_eq!(find_ci(b"aab", b"ab", false), Some(1));
    assert_eq!(find_ci(b"[a]", b"{A}", true), None);
    assert_eq!(find_ci("é@É".as_bytes(), "É".as_bytes(), true), Some(3));
}

#[test]
fn a_found_text_stands_between_characters() {
    let hay = "日本é語Ab本";
    for pat in ["本", "é", "語a", "aB本", "日"] {
        let i = find_ci(hay.as_bytes(), pat.as_bytes(), true).unwrap();
        assert!(hay.is_char_boundary(i) && hay.is_char_boundary(i + pat.len()));
    }
}

#[test]
fn patterns_are_marked() {
    assert_eq!(highlight(OFF, "abcabc", "b", false), "abcabc");
    assert_eq!(highlight(ON, "abcabc", "b", false), "a\u{1b}[1;31mb\u{1b}[0mca\u{1b}[1;31mb\u{1b}[0mc");
    assert_eq!(highlight(ON, "aaa", "aa", false), "\u{1b}[1;31maa\u{1b}[0ma");
    assert_eq!(highlight(ON, "日本X本", "本x", true), "日\u{1b}[1;31m本X\u{1b}[0m本");
    assert_eq!(highlight(ON, "abc", "", false), "abc");
    assert_eq!(highlight(ON, "abc", "z", true), "abc");
    assert!(has_match("Error: OOM", "oom", true));
    assert!(!has_match("Error: OOM", "oom", false));
}

#[test]
fn marking_loses_nothing() {
    for (line, pat) in [("abcabc", "bc"), ("日本日本", "日"), ("xyz", "q"), ("", "a"), ("AaAa", "aa")] {
        let marked = highlight(ON, line, pat, true);
        assert_eq!(marked.replace("\u{1b}[1;31m", "").replace("\u{1b}[0m", ""), line);
        assert_eq!(marked != line, has_match(line, pat, true));
    }
}

// ---------------------------------------------------------------------------
// what a terminal would show
// ---------------------------------------------------------------------------

#[test]
fn rewritten_lines_show_their_end() {
    assert_eq!(after_last_cr(b"a\rb\rc"), b"c");
    assert_eq!(after_last_cr(b"abc"), b"abc");
    assert_eq!(after_last_cr(b"abc\r"), b"");
    assert_eq!(display_bytes(b"10%\r50%\r90%\r\r"), "90%");
    assert_eq!(display_bytes(b"plain"), "plain");
    assert_eq!(display_bytes(b"\r"), "");
    assert_eq!(display_bytes(b"a\xffb"), "a\u{fffd}b");
}

#[test]
fn long_lines_are_capped() {
    let long = "é".repeat(4001);
    let shown = display_bytes(long.as_bytes());
    assert_eq!(shown.chars().count(), 4001);
    assert!(shown.ends_with("é…"));
    assert_eq!(display_bytes("é".repeat(4000).as_bytes()), "é".repeat(4000));
    assert_eq!(cap("x".to_string()), "x");
}

#[test]
fn paths_are_cut_from_the_front() {
    assert_eq!(ellipsize_front("/a/b/c", 6), "/a/b/c");
    assert_eq!(ellipsize_front("/a/b/c", 4), "…b/c");
    assert_eq!(ellipsize_front("/a/b/c", 1), "…");
    assert_eq!(ellipsize_front("/a/b/c", 0), "");
    assert_eq!(ellipsize_front("", 0), "");
}

#[test]
fn sizes_and_ages_are_short() {
    assert_eq!(human_bytes(0), "0 B");
    assert_eq!(human_bytes(1023), "1023 B");
    assert_eq!(human_bytes(1024), "1 KiB");
    assert_eq!(human_bytes(36 * 1024 + 5), "36 KiB");
    assert_eq!(human_bytes(5767168), "5.5 MiB");
    assert_eq!(ago(Some(0)), "0s");
    assert_eq!(ago(Some(59)), "59s");
    assert_eq!(ago(Some(60)), "1m");
    assert_eq!(ago(Some(3599)), "59m");
    assert_eq!(ago(Some(14 * 3600 + 99)), "14h");
    assert_eq!(ago(Some(86399)), "23h");
    assert_eq!(ago(Some(86400)), "1d 0h");
    assert_eq!(ago(Some(25 * 3600)), "1d 1h");
    assert_eq!(ago(Some(3 * 86400 + 5 * 3600 + 99)), "3d 5h");
    assert_eq!(ago(None), "0s");
    assert_eq!(ago(Some(u64::MAX)), "0m");
}

// ---------------------------------------------------------------------------
// targets and the index
// ---------------------------------------------------------------------------

fn jobs() -> Vec<Job> {
    vec![
        job(
            "11.q",
            r#"{"Job_Name": "train", "job_state": "R", "Output_Path": "h:/l/t.o11", "Error_Path": "h:/l/t.e11",
                "Join_Path": "oe"}"#,
        ),
        job(
            "12.q",
            r#"{"Job_Name": "eval", "job_state": "Q", "Output_Path": "h:/l/e.o12", "Error_Path": "h:/l/e.e12"}"#,
        ),
        job(
            "13.q",
            r#"{"job_state": "H", "Output_Path": "h:/dev/null", "Error_Path": "/dev/null"}"#,
        ),
        job("14.q", r#"{"job_state": "F", "Output_Path": "/l/x", "Error_Path": "/l/x"}"#),
    ]
}

#[test]
fn logs_are_found_by_their_jobs() {
    let js = jobs();
    let refs: Vec<&Job> = js.iter().collect();
    let ts = build_targets(&refs);
    let got: Vec<(usize, &str, &str, &str)> =
        ts.iter().map(|t| (t.jidx, t.label.as_str(), t.path.as_str(), t.color)).collect();
    assert_eq!(
        got,
        [
            (0, "11", "/l/t.o11", "36"),
            (1, "12", "/l/e.o12", "35"),
            (1, "12.e", "/l/e.e12", "35"),
            (3, "14", "/l/x", "32"),
        ]
    );
    assert_eq!(ts[2].job.short_id, "12");
    assert_eq!(label_width(&ts), 4);
    assert_eq!(list_paths(&ts), "/l/t.o11\n/l/e.o12\n/l/e.e12\n/l/x\n");
    let colors: Vec<&str> = (0..7).map(job_color).collect();
    assert_eq!(colors, ["36", "35", "33", "32", "94", "95", "36"]);
}

#[test]
fn the_index_lists_logs() {
    let js = jobs();
    let refs: Vec<&Job> = js.iter().collect();
    let ts = build_targets(&refs);
    let files = vec![
        Some(FileInfo { len: 5767168, age: Age::Secs(59) }),
        Some(FileInfo { len: 12, age: Age::Ahead }),
        None,
        Some(FileInfo { len: 0, age: Age::Unknown }),
    ];
    assert_eq!(
        list(&ts, &files, 80, OFF),
        [
            "   ID     S  NAME                      SIZE   WRITE PATH\n",
            " 1 11     R  train                  5.5 MiB     59s /l/t.o11\n",
            " 2 12     Q  eval                      12 B      0s /l/e.o12\n",
            " 3 12.e   Q  eval                         -       - /l/e.e12\n",
            " 4 14     F  -                          0 B       - /l/x\n",
            " - = no file yet: job not started, or output spooled without #PBS -k oed\n",
            " follow: qlog -f · search: qlog -g PATTERN · open: less $(qlog -p <jobid>)\n",
        ]
        .concat()
    );
    let one = build_targets(&vec![&js[0]]);
    let text = list(&one, &vec![Some(FileInfo { len: 1, age: Age::Secs(60) })], 80, ON);
    assert_eq!(
        text,
        [
            "\u{1b}[2m   ID     S  NAME                      SIZE   WRITE PATH\u{1b}[0m\n",
            " 1 \u{1b}[36m11    \u{1b}[0m \u{1b}[32mR \u{1b}[0m train                      1 B      1m ",
            "\u{1b}[2m/l/t.o11\u{1b}[0m\n",
            " \u{1b}[2mfollow: qlog -f · search: qlog -g PATTERN · open: less $(qlog -p <jobid>)\u{1b}[0m\n",
        ]
        .concat()
    );
}

#[test]
fn the_lines_of_the_index_are_numbered() {
    let named = |id: &str, name: &str, path: &str| -> Job {
        job(id, &format!(r#"{{"Job_Name": "{}", "job_state": "R", "Output_Path": "{}"}}"#, name, path))
    };
    let js = vec![
        named("193768.q", "train_a", "…/train_a.o193768"),
        named("194327.q", "train_b", "…/train_b.o194327"),
        named("194367.q", "grpo_train.sh", "…/grpo_train.sh.o194367"),
    ];
    let refs: Vec<&Job> = js.iter().collect();
    let ts = build_targets(&refs);
    let files = vec![
        Some(FileInfo { len: 36 << 10, age: Age::Secs(14 * 3600) }),
        Some(FileInfo { len: 5767168, age: Age::Secs(0) }),
        Some(FileInfo { len: 3 << 10, age: Age::Secs(59) }),
    ];
    assert!(list(&ts, &files, 100, OFF).starts_with(
        &[
            "   ID     S  NAME                      SIZE   WRITE PATH\n",
            " 1 193768 R  train_a                 36 KiB     14h …/train_a.o193768\n",
            " 2 194327 R  train_b                5.5 MiB      0s …/train_b.o194327\n",
            " 3 194367 R  grpo_train.sh            3 KiB     59s …/grpo_train.sh.o194367\n",
        ]
        .concat()
    ));
    let many: Vec<Job> = (0..12).map(|i| named(&format!("{}.q", i), "n", "/l/x")).collect();
    let refs: Vec<&Job> = many.iter().collect();
    let ts = build_targets(&refs);
    let files = ts.iter().map(|_| None).collect();
    let text = list(&ts, &files, 100, OFF);
    assert!(text.contains("\n  9 8 ") && text.contains("\n 10 9 ") && text.contains("\n 12 11 "));
}

#[test]
fn long_paths_fit_the_terminal() {
    let path = format!("/{}", "p".repeat(60));
    let j = job("7.q", &format!("{{\"Output_Path\": \"{}\"}}", path));
    let ts = build_targets(&vec![&j]);
    let files = vec![Some(FileInfo { len: 1, age: Age::Secs(1) })];
    let text = list(&ts, &files, 90, OFF);
    let row = text.lines().nth(1).unwrap();
    assert_eq!(row.chars().count(), 90);
    assert!(row.ends_with(&format!(" …{}", "p".repeat(37))));
    let narrow = list(&ts, &files, 10, OFF);
    assert!(narrow.lines().nth(1).unwrap().ends_with(&format!(" …{}", "p".repeat(23))));
}

#[test]
fn modes_have_an_order() {
    for full in [false, true] {
        assert!(matches!(mode(true, true, true, true, full), Mode::Paths));
        assert!(matches!(mode(true, true, true, false, full), Mode::NoPaths));
        assert!(matches!(mode(false, true, true, false, full), Mode::Follow));
        assert!(matches!(mode(false, false, true, true, full), Mode::Search));
        assert!(matches!(mode(false, false, false, false, full), Mode::NoLogs));
    }
    assert!(matches!(mode(false, true, true, true, false), Mode::Follow));
    assert!(matches!(mode(false, true, true, true, true), Mode::Pages));
    assert!(matches!(mode(false, false, false, true, false), Mode::Index));
    assert!(matches!(mode(false, false, false, true, true), Mode::Picker));
}

// ---------------------------------------------------------------------------
// searching
// ---------------------------------------------------------------------------

fn shown(lines: &[&str], pat: &str, context: usize) -> (Vec<String>, u64) {
    let mut s = Search::new();
    let mut out = Vec::new();
    for l in lines {
        let hit = has_match(l, pat, false);
        for x in step(&mut s, l.to_string(), hit, context) {
            out.push(match x {
                Shown::Gap => "--".to_string(),
                Shown::Near(n, t) => format!("-{} {}", n, t),
                Shown::Match(n, t) => format!(":{} {}", n, t),
            });
        }
    }
    (out, s.n)
}

#[test]
fn a_search_shows_context() {
    let lines = ["a", "b", "X1", "c", "d", "e", "f", "X2", "X3", "g"];
    assert_eq!(shown(&lines, "X", 0), (vec![":3 X1".to_string(), ":8 X2".to_string(), ":9 X3".to_string()], 3));
    let (got, n) = shown(&lines, "X", 1);
    assert_eq!(n, 3);
    assert_eq!(got, ["-2 b", ":3 X1", "-4 c", "--", "-7 f", ":8 X2", ":9 X3", "-10 g"]);
    let (got, _) = shown(&lines, "X", 2);
    assert_eq!(
        got,
        ["-1 a", "-2 b", ":3 X1", "-4 c", "-5 d", "-6 e", "-7 f", ":8 X2", ":9 X3", "-10 g"]
    );
    assert_eq!(shown(&lines, "Y", 2), (Vec::new(), 0));
}

#[test]
fn a_search_shows_each_line_near_a_match_once() {
    for pattern in 0..256u32 {
        let lines: Vec<&str> = (0..8).map(|i| if pattern >> i & 1 == 1 { "X" } else { "." }).collect();
        for context in 0..4usize {
            let near = |k: i64| (0..8).any(|m| pattern >> m & 1 == 1 && (k - m as i64).abs() <= context as i64);
            let mut expected = Vec::new();
            let mut last: i64 = -1;
            for k in 0..8i64 {
                if near(k) {
                    if context > 0 && last >= 0 && k > last + 1 {
                        expected.push("--".to_string());
                    }
                    let mark = if lines[k as usize] == "X" { ":" } else { "-" };
                    expected.push(format!("{}{} {}", mark, k + 1, lines[k as usize]));
                    last = k;
                }
            }
            let (got, n) = shown(&lines, "X", context);
            assert_eq!(got, expected);
            assert_eq!(n, pattern.count_ones() as u64);
        }
    }
}

fn target<'a>(j: &'a Job) -> Target<'a> {
    Target { job: j, jidx: 0, label: "11".to_string(), path: "/l".to_string(), color: "36" }
}

#[test]
fn results_have_labels_and_numbers() {
    let j = job("11.q", "{}");
    let t = target(&j);
    let q = Query { pat: "oom", icase: true, context: 1, label_w: 4, pal: OFF };
    let mut s = Search::new();
    assert_eq!(search_raw(&mut s, b"first\r\n", &t, &q), "");
    assert_eq!(search_raw(&mut s, b"x\rOOM here\n", &t, &q), "11  -1- first\n11  :2: OOM here\n");
    assert_eq!(search_line(&mut s, "after".to_string(), &t, &q), "11  -3- after\n");
    assert_eq!(search_raw(&mut s, b"far", &t, &q), "");
    assert_eq!(search_raw(&mut s, b"far", &t, &q), "");
    assert_eq!(search_raw(&mut s, b"oom", &t, &q), "--\n11  -5- far\n11  :6: oom\n");
    let q = Query { pat: "b", icase: false, context: 0, label_w: 2, pal: ON };
    let mut s = Search::new();
    assert_eq!(
        search_raw(&mut s, b"abc\n", &t, &q),
        "\u{1b}[36m11\u{1b}[0m\u{1b}[2m:1: \u{1b}[0ma\u{1b}[1;31mb\u{1b}[0mc\n"
    );
    assert_eq!(strip_lf(b"a\n\n"), b"a");
    assert_eq!(strip_lf(b""), b"");
}

#[test]
fn a_search_is_summed_up() {
    let mut t = Tally { total: 0, files_hit: 0, scanned: 0, unreadable: 0 };
    assert_eq!(search_status(&t), 1);
    count_file(&mut t, Some(0));
    count_file(&mut t, Some(1));
    assert_eq!(summary(&t, OFF), " 1 matching line in 1 of 2 logs\n");
    count_file(&mut t, Some(4));
    count_file(&mut t, None);
    assert_eq!(summary(&t, OFF), " 5 matching lines in 2 of 3 logs · 1 unreadable/missing\n");
    assert_eq!(search_status(&t), 0);
    assert_eq!(refuse_search("", true).unwrap(), ("empty pattern".to_string(), 2));
    assert_eq!(refuse_search("", false).unwrap(), ("empty pattern".to_string(), 2));
    assert_eq!(refuse_search("x", false).unwrap(), ("no logs to search".to_string(), 1));
    assert!(refuse_search("x", true).is_none());
}

// ---------------------------------------------------------------------------
// following
// ---------------------------------------------------------------------------

#[test]
fn a_stream_waits_for_its_log() {
    let mut s = Stream::new(0);
    let (said, ask) = s.look(None);
    assert_eq!(
        said,
        Some("waiting for log file (job not started, or output spooled without #PBS -k oed)")
    );
    assert!(matches!(ask, Ask::Done));
    let (said, ask) = s.look(None);
    assert!(said.is_none() && matches!(ask, Ask::Done));
    let (said, ask) = s.look(Some(10));
    assert_eq!(said, Some("log file appeared"));
    assert!(matches!(ask, Ask::Tail { start: 0, len: 10 }));
    let (said, ask) = s.look(None);
    assert!(said.is_none() && matches!(ask, Ask::Done));
}

#[test]
fn a_stream_starts_with_the_end_of_its_log() {
    let mut s = Stream::new(0);
    let (said, ask) = s.look(Some(TAIL_SCAN + 100));
    assert!(said.is_none());
    assert!(matches!(ask, Ask::Tail { start: 100, len: TAIL_SCAN }));
    assert_eq!(s.take_tail(b"cut\none\ntwo\nthree\nrest", 100, 2), ["two", "three"]);
    assert_eq!(s.buf, b"rest");
    assert_eq!(s.offset, TAIL_SCAN + 100);
    let mut s = Stream::new(0);
    s.look(Some(3));
    assert_eq!(s.take_tail(b"one\ntwo\n", 0, 10), ["one", "two"]);
    assert!(s.buf.is_empty());
    assert!(s.take_tail(b"one\ntwo\n", 0, 0).is_empty());
    assert!(s.take_tail(b"cut\n", 5, 3).is_empty());
}

#[test]
fn a_stream_shows_complete_lines() {
    let mut s = Stream::new(7);
    s.look(Some(0));
    let (said, ask) = s.look(Some(6));
    assert!(said.is_none());
    assert!(matches!(ask, Ask::More { start: 0, len: 6 }));
    assert_eq!(s.take_more(b"one\ntw", 9), ["one"]);
    assert_eq!((s.offset, s.last_partial), (6, 9));
    assert_eq!(s.take_more(b"o", 10), Vec::<String>::new());
    assert_eq!(s.last_partial, 9);
    assert_eq!(s.take_more(b"\n\nx", 11), ["two", ""]);
    assert_eq!(s.buf, b"x");
    let (_, ask) = s.look(Some(s.offset));
    assert!(matches!(ask, Ask::Settle));
    let (_, ask) = s.look(Some(s.offset + MAX_READ + 5));
    assert!(matches!(ask, Ask::More { start: 10, len: MAX_READ }));
}

#[test]
fn a_log_that_shrinks_is_read_again() {
    let mut s = Stream::new(0);
    s.look(Some(20));
    s.take_tail(b"abc", 0, 5);
    let (said, ask) = s.look(Some(4));
    assert_eq!(said, Some("log truncated — following from the start"));
    assert!(matches!(ask, Ask::More { start: 0, len: 4 }));
    assert!(s.buf.is_empty());
    let (said, ask) = s.look(Some(0));
    assert!(said.is_none() && matches!(ask, Ask::Settle));
}

#[test]
fn chunks_do_not_matter() {
    let log = b"one\ntwo\n\nthree\rfour\nfive";
    for cut in 0..log.len() {
        let mut whole = Stream::new(0);
        let mut parts = Stream::new(0);
        let all = whole.take_more(log, 1);
        let mut got = parts.take_more(&log[..cut], 1);
        got.extend(parts.take_more(&log[cut..], 1));
        assert_eq!(got, all);
        assert_eq!(whole.buf, parts.buf);
    }
    assert_eq!(split_lines(b"a\n\nb"), [b"a".to_vec(), b"".to_vec(), b"b".to_vec()]);
    assert_eq!(split_lines(b""), [b"".to_vec()]);
}

#[test]
fn a_progress_bar_shows_up_after_a_while() {
    let mut s = Stream::new(0);
    s.take_more(b"10%\r20%", 3);
    assert!(s.settle(4_999_999_999).is_none());
    assert_eq!(s.settle(5_000_000_000), Some("20%".to_string()));
    assert!(s.buf.is_empty());
    assert_eq!(s.last_partial, 5_000_000_000);
    s.take_more(b"no return", 5_000_000_000);
    assert!(s.settle(99_000_000_000).is_none());
    s.take_more(b"\r  ", 99_000_000_000);
    assert!(s.settle(99_000_000_000).is_none());
    assert!(s.buf.is_empty());
    assert!(s.settle(1).is_none());
}

#[test]
fn lines_find_their_way() {
    assert!(matches!(route("x", false, true, None), Route::Show));
    assert!(matches!(route("x", false, false, None), Route::Keep));
    assert!(matches!(route("x", true, false, None), Route::Skip));
    assert!(matches!(route("x", false, true, Some(("y", false))), Route::Skip));
    assert!(matches!(route("Y", false, true, Some(("y", true))), Route::Show));
    assert!(matches!(route("x", true, true, Some(("y", false))), Route::Show));
    assert!(matches!(route("x", false, true, Some(("", false))), Route::Skip));
    let mut ring = Vec::new();
    for i in 0..RING + 2 {
        keep(&mut ring, i.to_string());
    }
    assert_eq!(ring.len(), 3000);
    assert_eq!((ring[0].as_str(), ring[2999].as_str()), ("2", "3001"));
    assert!(is_visible(None, 3) && is_visible(Some(3), 3) && !is_visible(Some(2), 3));
}

#[test]
fn lines_are_delivered() {
    let j = job("11.q", "{}");
    let t = target(&j);
    let sc = Screen { pal: OFF, prefix_on: true, label_w: 4 };
    let mut ring = Vec::new();
    assert_eq!(
        deliver(&sc, &t, "hi".to_string(), false, true, None, &mut ring),
        Some("[11  ] hi\n".to_string())
    );
    assert!(deliver(&sc, &t, "hidden".to_string(), false, false, None, &mut ring).is_none());
    assert_eq!(ring, ["hidden"]);
    assert!(deliver(&sc, &t, "no".to_string(), false, false, Some(("x", false)), &mut ring).is_none());
    assert!(deliver(&sc, &t, "status".to_string(), true, false, None, &mut ring).is_none());
    assert_eq!(ring, ["hidden"]);
    let on = Screen { pal: ON, prefix_on: false, label_w: 4 };
    assert_eq!(emit(&on, &t, "a b", false, Some(("b", false))), "a \u{1b}[1;31mb\u{1b}[0m\n");
    assert_eq!(emit(&on, &t, "a b", true, Some(("b", false))), "\u{1b}[2ma b\u{1b}[0m\n");
    let prefixed = Screen { pal: ON, prefix_on: true, label_w: 2 };
    assert_eq!(emit(&prefixed, &t, "x", false, None), "\u{1b}[36m[11]\u{1b}[0m x\n");
}

#[test]
fn the_screen_has_banners() {
    assert_eq!(banner(OFF, "all logs"), " ── all logs ──\n");
    assert_eq!(heading(1, false, OFF), " following 1 log · Ctrl-C to stop\n");
    assert_eq!(
        heading(3, true, OFF),
        " following 3 logs · keys: 1-9 solo · a all · j/k cycle · l list · q quit\n"
    );
}

#[test]
fn jobs_have_keys() {
    let js: Vec<Job> = (0..11).map(|i| job(&format!("{}.q", i), r#"{"Job_Name": "n"}"#)).collect();
    let refs: Vec<&Job> = js.iter().collect();
    let text = print_mapping(&refs, OFF);
    assert_eq!(text.lines().count(), 10);
    assert!(text.starts_with("  1 0 n\n  2 1 n\n"));
    assert!(text.ends_with("  9 8 n\n  (+2 more — j/k cycles through all)\n"));
    assert_eq!(
        print_mapping(&refs[..1].to_vec(), ON),
        "  \u{1b}[1m1\u{1b}[0m \u{1b}[36m0\u{1b}[0m \u{1b}[2mn\u{1b}[0m\n"
    );
}

#[test]
fn switching_shows_what_was_kept() {
    let js = jobs();
    let refs: Vec<&Job> = js.iter().collect();
    let ts = build_targets(&refs);
    let sc = Screen { pal: OFF, prefix_on: true, label_w: 4 };
    let mut rings: Vec<Vec<String>> =
        (0..4).map(|i| vec![format!("x{}", i), format!("y{}", i)]).collect();
    assert_eq!(switch(None, &refs, &ts, &mut rings, &sc), " ── all logs ──\n");
    assert_eq!(rings[1].len(), 2);
    assert_eq!(
        switch(Some(1), &refs, &ts, &mut rings, &sc),
        " ── 12 eval ──\n[12  ] x1\n[12  ] y1\n[12.e] x2\n[12.e] y2\n"
    );
    assert!(rings[1].is_empty() && rings[2].is_empty());
    assert_eq!(rings[0], ["x0", "y0"]);
    assert_eq!(rings[3], ["x3", "y3"]);
    assert_eq!(
        switch(Some(2), &refs, &ts, &mut rings, &sc),
        " ── 13 - ──\n (no log files for this job)\n"
    );
    let on = Screen { pal: ON, prefix_on: false, label_w: 4 };
    assert_eq!(
        switch(Some(0), &refs, &ts, &mut vec![vec!["k".to_string()], vec![], vec![], vec![]], &on),
        " \u{1b}[2m── 11 train ──\u{1b}[0m\n\u{1b}[2m\u{1b}[2mk\u{1b}[0m\u{1b}[0m\n"
    );
}

fn focus(key: u8, jobs: usize, solo: Option<usize>) -> Option<Option<usize>> {
    match press(key, jobs, solo) {
        Action::Focus(to) => Some(to),
        _ => None,
    }
}

#[test]
fn keys_act() {
    for k in [b'q', 3, 4, 27] {
        assert!(matches!(press(k, 2, None), Action::Quit));
    }
    assert_eq!(focus(b'a', 2, Some(1)), Some(None));
    assert_eq!(focus(b'0', 2, Some(1)), Some(None));
    assert_eq!(focus(b'1', 2, None), Some(Some(0)));
    assert_eq!(focus(b'2', 2, None), Some(Some(1)));
    assert_eq!(focus(b'3', 2, None), None);
    for (down, up) in [(b'j', b'k'), (b'n', b'p')] {
        assert_eq!(focus(down, 3, None), Some(Some(0)));
        assert_eq!(focus(down, 3, Some(2)), Some(Some(0)));
        assert_eq!(focus(up, 3, None), Some(Some(2)));
        assert_eq!(focus(up, 3, Some(0)), Some(Some(2)));
    }
    assert!(matches!(press(b'u', 1, None), Action::Scroll(Scroll::HalfUp)));
    assert!(matches!(press(b'd', 1, None), Action::Scroll(Scroll::HalfDown)));
    assert!(matches!(press(b'g', 1, None), Action::Scroll(Scroll::Oldest)));
    assert!(matches!(press(b'G', 1, None), Action::Scroll(Scroll::Newest)));
    assert!(matches!(press(b'l', 1, None), Action::Mapping));
    assert!(matches!(press(b'x', 1, None), Action::Ignore));
    for j in 0..5 {
        let next = focus(b'j', 5, Some(j)).unwrap();
        assert_eq!(focus(b'k', 5, next), Some(Some(j)));
    }
}
