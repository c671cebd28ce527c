use qrich::card::card;
use qrich::footer::{footer, summands, Balance, Sum, Totals};
use qrich::groups::{charged_groups, group_color, shared_group};
use qrich::json::parse;
use qrich::pbs::{point_rates, read_snapshot, Job, RateCard, Snapshot, State};
use qrich::reals::{Figure, Fill, Real, Share};
use qrich::render::{header, render};
use qrich::select::{
    current_user, filter_owner, list_jobs, list_logs, listing_time, use_color, who,
};
use qrich::table::{fit, row, table_header, Cols};
use qrich::view::{trim_num, Entry, Load, Viewport};

fn number(v: f64) -> Real {
    Real { bits: v.to_bits() }
}

fn figure(v: f64) -> Figure {
    Figure {
        value: number(v),
        whole: format!("{:.0}", v),
        tenth: format!("{:.1}", v),
        rounded: v.abs().round() as u64,
        near_whole: (v - v.round()).abs() < 0.05,
    }
}

fn share(v: f64) -> Share {
    Share {
        value: number(v),
        percent: format!("{:.0}", v * 100.0),
        percent_tenth: format!("{:.1}", v * 100.0),
    }
}

fn fill(frac: f64, width: usize) -> Fill {
    let frac = frac.clamp(0.0, 1.0);
    Fill {
        cells: (frac * width as f64).round() as usize,
        eighths: (frac * (width * 8) as f64).round() as usize,
    }
}

fn frac(j: &Job) -> f64 {
    match j.walltime_frac() {
        Some((u, q)) => u as f64 / q as f64,
        None => 0.0,
    }
}

fn amount(p: Option<(Real, u64, u64)>) -> f64 {
    match p {
        Some((r, n, s)) => f64::from_bits(r.bits) * n as f64 * s as f64 / 3600.0,
        None => 0.0,
    }
}

fn entry<'a>(j: &'a Job, rates: &RateCard) -> Entry<'a> {
    let f = frac(j);
    Entry {
        job: j,
        share: share(f),
        bar: fill(f, 14),
        card_bar: fill(f, 24),
        rate: figure(amount(j.point_rate(rates).map(|(r, n)| (r, n, 3600)))),
        spent: figure(amount(j.points_spent(rates))),
        reserved: figure(amount(j.points_reserved(rates))),
        load: match &j.cpupercent {
            Some(_) => Some(Load { percent: "350".to_string(), cores: "3.5".to_string() }),
            None => None,
        },
    }
}

fn snapshot(text: &str) -> Snapshot {
    let j = match parse(text) {
        Ok(j) => j,
        Err(e) => panic!("{}", e),
    };
    match read_snapshot(&j, "", false, false, 32400) {
        Ok(s) => s,
        Err(e) => panic!("{}", e),
    }
}

const ANSWER: &str = r#"{"pbs_server": "qjcm", "timestamp": 1787191625, "Jobs": {
  "190524.q": {"Job_Name": "train_multinode.sh", "Job_Owner": "bob@x", "job_state": "R", "queue": "abciq",
     "group_list": "grp-b",
     "Resource_List": {"rt_QF": 2, "nodect": 2, "ngpus": 8, "ncpus": 384, "mem": "1000gb", "walltime": "48:00:00"},
     "resources_used": {"walltime": "24:04:00", "cpupercent": 350, "mem": "189946940kb"},
     "Variable_List": {"SERVICE_TYPE": "spot"},
     "exec_vnode": "(qh352[0]:a+qh353[0]:a+qh354[0]:a)",
     "qtime": "Thu Aug 20 10:57:05 2026", "stime": "Thu Aug 20 11:00:00 2026",
     "comment": "Job run", "Output_Path": "h:/g/t.o190524", "Submit_arguments": "t.sh"},
  "190662.q": {"Job_Name": "train_large_4gpu.sh", "Job_Owner": "alice@x", "job_state": "R", "queue": "abciq",
     "group_list": "grp-a",
     "Resource_List": {"rt_QF": 1, "nodect": 1, "ngpus": 4, "walltime": "24:00:00"},
     "resources_used": {"walltime": "22:48:00"}, "exec_vnode": "(qh349:a)"},
  "190746.q": {"Job_Name": "eval.sh", "Job_Owner": "alice@x", "job_state": "H", "queue": "abciq",
     "group_list": "grp-a", "comment": "Not Running: held",
     "Resource_List": {"rt_QG": 1, "ngpus": 1, "walltime": "4:00:00"},
     "qtime": "Thu Aug 20 10:57:05 2026", "estimated": {"start_time": "tomorrow"}},
  "190001.q": {"Job_Name": "done.sh", "Job_Owner": "alice@x", "job_state": "F", "Exit_status": 1,
     "Resource_List": {"walltime": "1:00:00"}, "resources_used": {"walltime": "0:30:00"}}
}}"#;

fn viewport<'a>(rates: &'a RateCard, width: usize, long: bool, ascii: bool, color: bool) -> Viewport<'a> {
    Viewport {
        color,
        ascii,
        width,
        long,
        show_points: true,
        rates,
        tz: 32400,
        now: 1787191625,
    }
}

fn totals(burn: f64, spent: f64, reserved: f64) -> Totals {
    Totals { burn: figure(burn), spent: figure(spent), reserved: figure(reserved) }
}

fn balance(group: &str, used: f64, granted: f64, committed: f64) -> Balance {
    let f = used / granted;
    Balance {
        group: group.to_string(),
        share: share(f),
        bar: fill(f, 12),
        left: figure(granted - used),
        granted: figure(granted),
        committed: figure(committed),
    }
}

#[test]
fn jobs_are_filtered_and_sorted() {
    let snap = snapshot(ANSWER);
    let shares: Vec<Real> = snap.jobs.iter().map(|j| number(frac(j))).collect();
    let ids = |v: Vec<usize>| -> Vec<String> {
        v.iter().map(|i| snap.jobs[*i].short_id.clone()).collect()
    };
    assert_eq!(
        ids(list_jobs(&snap.jobs, None, &shares)),
        ["190662", "190524", "190746", "190001"]
    );
    let alice = "alice".to_string();
    assert_eq!(
        ids(list_jobs(&snap.jobs, Some(&alice), &shares)),
        ["190662", "190746", "190001"]
    );
    assert_eq!(ids(list_logs(&snap.jobs, None)), ["190524", "190662", "190746", "190001"]);
    let nobody = "nobody".to_string();
    assert!(list_logs(&snap.jobs, Some(&nobody)).is_empty());
}

#[test]
fn jobs_without_a_share_come_last_in_their_state() {
    let snap = snapshot(
        r#"{"Jobs": {"1.q": {"job_state": "R"},
                     "2.q": {"job_state": "R", "Resource_List": {"walltime": "10"},
                             "resources_used": {"walltime": "0"}},
                     "10.q": {"job_state": "R"}, "3.q": {"job_state": "Q"}}}"#,
    );
    let shares: Vec<Real> = snap.jobs.iter().map(|j| number(frac(j))).collect();
    let list: Vec<&str> =
        list_jobs(&snap.jobs, None, &shares).iter().map(|i| snap.jobs[*i].short_id.as_str()).collect();
    assert_eq!(list, ["2", "1", "10", "3"]);
}

#[test]
fn the_owner_is_the_user_unless_told_otherwise() {
    let u = "carol".to_string();
    assert_eq!(filter_owner(false, false, None, "me"), Some("me".to_string()));
    assert_eq!(filter_owner(false, false, Some(&u), "me"), Some("carol".to_string()));
    assert_eq!(filter_owner(true, false, Some(&u), "me"), None);
    assert_eq!(filter_owner(false, true, Some(&u), "me"), None);
    assert_eq!(who(Some(&u), true), "carol");
    assert_eq!(who(None, true), "selected jobs");
    assert_eq!(who(None, false), "all users");
    assert_eq!(current_user(Some("a".to_string()), Some("b".to_string())), "a");
    assert_eq!(current_user(None, Some("b".to_string())), "b");
    assert_eq!(current_user(None, None), "");
    assert_eq!(listing_time(5, 9), 5);
    assert_eq!(listing_time(0, 9), 9);
    assert_eq!(listing_time(-1, 9), 9);
    assert!(use_color(Some(true), false, true));
    assert!(!use_color(Some(false), true, false));
    assert!(use_color(None, true, false));
    assert!(!use_color(None, true, true));
    assert!(!use_color(None, false, false));
}

#[test]
fn a_table_is_rendered() {
    let snap = snapshot(ANSWER);
    let rates = point_rates(&Vec::new());
    let entries: Vec<Entry> = [1usize, 0, 2].iter().map(|i| entry(&snap.jobs[*i + 1], &rates)).collect();
    let v = viewport(&rates, 120, false, false, false);
    let t = totals(16.0, 354.7, 608.0);
    let b = vec![balance("grp-b", 52000.0, 60000.0, 480.0), balance("grp-a", 299900.0, 300000.0, 128.0)];
    let text = render(&snap, &entries, &v, "all users", &t, &b);
    assert_eq!(
        text,
        concat(&[
            " ABCI-Q qjcm · all users · 2 running · 1 held · 12 GPU · 16 pt/h · 20 Aug 11:07\n",
            "\n",
            " ID          NAME                 TYPE       GPU WALLTIME             % USED/REQ       GROUP      POINTS       NODE\n",
            " 190662   ●R train_large_4gpu.sh  rt_QF        4 ▕█████████████▎▏   95% 22:48/24:00    grp-a      114/120      qh349\n",
            " 190524   ●R train_multinode.sh   rt_QF×2      8 ▕███████░░░░░░░▏   50% 24:04/48:00    grp-b      241/480      qh352+2\n",
            " 190746   ●H eval.sh              rt_QG        1   held 0:10          - -/4:00         grp-a      0/8          -\n",
            "\n 355 pt spent so far · 608 pt reserved by these jobs\n",
            " ⚠ 190662 train_large_4gpu.sh at 95% of walltime — 1:12:00 left\n",
            " grp-a        ▕████████████▏ 100% 100 left of 300,000  ⚠ 128 pt reserved exceeds the balance\n",
            " grp-b        ▕██████████▍░▏  87% 8,000 left of 60,000\n",
        ])
    );
}

fn concat(parts: &[&str]) -> String {
    parts.concat()
}

#[test]
fn an_empty_listing_says_so() {
    let snap = snapshot(r#"{"timestamp": 1}"#);
    let rates = point_rates(&Vec::new());
    let t = totals(0.0, 0.0, 0.0);
    let v = viewport(&rates, 80, false, true, false);
    assert_eq!(
        render(&snap, &Vec::new(), &v, "me", &t, &Vec::new()),
        " ABCI-Q pbs | me | 20 Aug 11:07\n\n  no jobs — submit one with `qsub script.sh`\n"
    );
    let v = viewport(&rates, 80, true, true, true);
    assert_eq!(
        render(&snap, &Vec::new(), &v, "me", &t, &Vec::new()),
        " \u{1b}[1mABCI-Q pbs\u{1b}[0m\u{1b}[2m | \u{1b}[0m\u{1b}[36mme\u{1b}[0m\u{1b}[2m | \u{1b}[0m\
         \u{1b}[2m20 Aug 11:07\u{1b}[0m\n  \u{1b}[2mno jobs — submit one with `qsub script.sh`\u{1b}[0m\n"
    );
}

#[test]
fn cards_are_rendered() {
    let snap = snapshot(ANSWER);
    let rates = point_rates(&Vec::new());
    let v = viewport(&rates, 60, true, false, false);
    assert_eq!(
        card(&entry(&snap.jobs[1], &rates), &v),
        concat(&[
            " ● 190524.q  train_multinode.sh   running · abciq · spot\n",
            "   rt_QF×2 · 384 CPU · 8 GPU · 1000gb · qh352,qh353,qh354 · charged grp-b\n",
            "   walltime ▕████████████░░░░░░░░░░░░▏ 50.1%  24:04:00 used of 48:00:00 · 23:56:00 left\n",
            "   usage    cpu 350% (3.5 of 384 cores) · mem 181 GiB\n",
            "   points   241 spent of 480 reserved · 10 pt/h\n",
            "   started  20 Aug 11:00 · submitted 20 Aug 10:57\n",
            "   log      /g/t.o190524\n",
            "   submit   t.sh\n",
        ])
    );
    assert_eq!(
        card(&entry(&snap.jobs[3], &rates), &v),
        concat(&[
            " ● 190746.q  eval.sh   held · abciq\n",
            "   rt_QG · 1 GPU · charged grp-a\n",
            "   walltime held 0:10:00 · 4:00:00 requested\n",
            "   why      Not Running: held\n",
            "   queued   20 Aug 10:57 · estimated start tomorrow\n",
        ])
    );
    assert_eq!(
        card(&entry(&snap.jobs[0], &rates), &v),
        concat(&[
            " ● 190001.q  done.sh   finished · \n",
            "   -\n",
            "   walltime ▕████████████░░░░░░░░░░░░▏ 50.0%  0:30:00 used of 1:00:00\n",
            "   exit     1\n",
        ])
    );
}

#[test]
fn a_long_listing_has_cards_and_a_footer() {
    let snap = snapshot(ANSWER);
    let rates = point_rates(&Vec::new());
    let entries = vec![entry(&snap.jobs[3], &rates)];
    let v = viewport(&rates, 60, true, true, false);
    let text = render(&snap, &entries, &v, "alice", &totals(0.0, 0.0, 8.0), &Vec::new());
    assert_eq!(
        text,
        concat(&[
            " ABCI-Q qjcm | alice | 1 held | charged grp-a | 20 Aug 11:07\n",
            "\n * 190746.q  eval.sh   held · abciq\n",
            "   rt_QG | 1 GPU | charged grp-a\n",
            "   walltime held 0:10:00 | 4:00:00 requested\n",
            "   why      Not Running: held\n",
            "   queued   20 Aug 10:57 | estimated start tomorrow\n",
            "\n 0 pt spent so far · 8 pt reserved by these jobs\n",
        ])
    );
}

#[test]
fn columns_go_least_first() {
    let shown = |w: usize| -> (bool, bool, bool, bool, bool, usize) {
        let (c, name) = fit(w, false);
        assert!(!c.group);
        (c.node, c.points, c.gpu, c.bar, c.time, name)
    };
    assert_eq!(shown(200), (true, true, true, true, true, 111));
    assert_eq!(shown(103), (true, true, true, true, true, 14));
    assert_eq!(shown(102), (false, true, true, true, true, 23));
    assert_eq!(shown(92), (false, false, true, true, true, 26));
    assert_eq!(shown(79), (false, false, false, true, true, 18));
    assert_eq!(shown(74), (false, false, false, false, true, 30));
    assert_eq!(shown(57), (false, false, false, false, false, 28));
    assert_eq!(shown(10), (false, false, false, false, false, 14));
    let none =
        Cols { gpu: false, bar: false, time: false, group: false, points: false, node: false };
    assert_eq!(none.fixed(), 29);
    assert_eq!(fit(200, false).0.fixed(), 89);
}

#[test]
fn the_group_column_takes_its_room_from_the_name() {
    let shown = |w: usize| -> (bool, bool, bool, bool, bool, bool, usize) {
        let (c, name) = fit(w, true);
        (c.node, c.points, c.gpu, c.group, c.bar, c.time, name)
    };
    assert_eq!(shown(200), (true, true, true, true, true, true, 100));
    assert_eq!(fit(200, false).1, 100 + 11);
    assert_eq!(shown(114), (true, true, true, true, true, true, 14));
    assert_eq!(shown(113), (false, true, true, true, true, true, 23));
    assert_eq!(shown(103), (false, false, true, true, true, true, 26));
    assert_eq!(shown(90), (false, false, false, true, true, true, 18));
    assert_eq!(shown(85), (false, false, false, false, true, true, 24));
    assert_eq!(shown(74), (false, false, false, false, false, true, 30));
}

#[test]
fn a_shared_group_stands_in_the_header() {
    let snap = snapshot(ANSWER);
    let rates = point_rates(&Vec::new());
    let pick = |ids: &[usize]| -> Vec<Entry> {
        ids.iter().map(|i| entry(&snap.jobs[*i], &rates)).collect()
    };
    assert_eq!(shared_group(&pick(&[2, 3])), Some("grp-a".to_string()));
    assert_eq!(shared_group(&pick(&[1, 2])), None);
    assert_eq!(shared_group(&pick(&[2, 0])), None);
    assert_eq!(shared_group(&pick(&[0])), None);
    assert_eq!(shared_group(&Vec::new()), None);

    let v = viewport(&rates, 109, false, false, false);
    let text =
        render(&snap, &pick(&[2, 3]), &v, "alice", &totals(5.0, 114.0, 128.0), &Vec::new());
    assert_eq!(
        text,
        concat(&[
            " ABCI-Q qjcm · alice · 1 running · 1 held · 4 GPU · 5 pt/h · charged grp-a · 20 Aug 11:07\n",
            "\n",
            " ID          NAME                 TYPE       GPU WALLTIME             % USED/REQ       POINTS       NODE\n",
            " 190662   ●R train_large_4gpu.sh  rt_QF        4 ▕█████████████▎▏   95% 22:48/24:00    114/120      qh349\n",
            " 190746   ●H eval.sh              rt_QG        1   held 0:10          - -/4:00         0/8          -\n",
            "\n 114 pt spent so far · 128 pt reserved by these jobs\n",
            " ⚠ 190662 train_large_4gpu.sh at 95% of walltime — 1:12:00 left\n",
        ])
    );
}

#[test]
fn jobs_without_groups_have_no_group_column() {
    let snap = snapshot(r#"{"Jobs": {"1.q": {"job_state": "R"}, "2.q": {"job_state": "Q"}}}"#);
    let rates = point_rates(&Vec::new());
    let entries: Vec<Entry> = snap.jobs.iter().map(|j| entry(j, &rates)).collect();
    let v = viewport(&rates, 200, false, true, false);
    let text = render(&snap, &entries, &v, "me", &totals(0.0, 0.0, 0.0), &Vec::new());
    assert!(!text.contains("GROUP") && !text.contains("charged"));
    assert!(text.contains("USED/REQ       POINTS"));
    let mixed = snapshot(r#"{"Jobs": {"1.q": {"group_list": "g"}, "2.q": {}}}"#);
    let entries: Vec<Entry> = mixed.jobs.iter().map(|j| entry(j, &rates)).collect();
    let text = render(&mixed, &entries, &v, "me", &totals(0.0, 0.0, 0.0), &Vec::new());
    assert!(text.contains("USED/REQ       GROUP      POINTS") && !text.contains("charged"));
}

#[test]
fn without_colours_there_is_no_control_sequence() {
    let snap = snapshot(ANSWER);
    let rates = point_rates(&Vec::new());
    let t = totals(16.0, 354.7, 608.0);
    let b = || vec![balance("grp-b", 52000.0, 60000.0, 480.0), balance("grp-a", 299900.0, 300000.0, 128.0)];
    for picked in [vec![], vec![2usize, 3], vec![0, 1, 2, 3]] {
        let entries: Vec<Entry> = picked.iter().map(|i| entry(&snap.jobs[*i], &rates)).collect();
        for (long, ascii) in [(false, false), (false, true), (true, false), (true, true)] {
            let plain = viewport(&rates, 140, long, ascii, false);
            assert!(!render(&snap, &entries, &plain, "me", &t, &b()).contains('\u{1b}'));
            let painted = viewport(&rates, 140, long, ascii, true);
            assert!(render(&snap, &entries, &painted, "me", &t, &b()).contains('\u{1b}'));
        }
    }
}

#[test]
fn a_group_has_one_colour() {
    let snap = snapshot(ANSWER);
    let rates = point_rates(&Vec::new());
    let entries: Vec<Entry> = snap.jobs.iter().map(|j| entry(j, &rates)).collect();
    let groups = charged_groups(&entries);
    assert_eq!((group_color(&groups, "grp-a"), group_color(&groups, "grp-b")), ("36", "35"));
    let v = viewport(&rates, 60, false, true, true);
    let c = Cols { gpu: false, bar: false, time: false, group: true, points: false, node: false };
    let a = row(&entries[3], &c, 14, &groups, &v);
    let b = row(&entries[1], &c, 14, &groups, &v);
    assert!(a.contains("\u{1b}[36mgrp-a     \u{1b}[0m"));
    assert!(b.contains("\u{1b}[35mgrp-b     \u{1b}[0m"));
    assert!(row(&entries[0], &c, 14, &groups, &v).contains("\u{1b}[2m-         \u{1b}[0m"));
    let text = footer(
        &entries,
        &v,
        &totals(0.0, 0.0, 0.0),
        &vec![balance("grp-a", 1.0, 2.0, 0.0), balance("grp-b", 1.0, 2.0, 0.0)],
    );
    assert!(text.contains(" \u{1b}[36mgrp-a       \u{1b}[0m "));
    assert!(text.contains(" \u{1b}[35mgrp-b       \u{1b}[0m "));
    let one = vec![entry(&snap.jobs[1], &rates)];
    assert!(header(&snap, &one, &v, "w", &figure(0.0))
        .contains("\u{1b}[36mcharged grp-b\u{1b}[0m"));
}

#[test]
fn rows_and_headers_follow_the_columns() {
    let snap = snapshot(ANSWER);
    let rates = point_rates(&Vec::new());
    let v = viewport(&rates, 60, false, true, false);
    let groups: Vec<String> = Vec::new();
    let c = Cols { gpu: false, bar: true, time: false, group: false, points: false, node: true };
    assert_eq!(
        table_header(&c, 14, &v),
        " ID          NAME           TYPE      WALLTIME             % NODE\n"
    );
    assert_eq!(
        row(&entry(&snap.jobs[2], &rates), &c, 14, &groups, &v),
        " 190662   *R train_large_4… rt_QF     [#############-]   95% qh349\n"
    );
    let narrow =
        Cols { gpu: false, bar: false, time: false, group: false, points: false, node: false };
    let painted = viewport(&rates, 60, false, true, true);
    assert_eq!(
        row(&entry(&snap.jobs[2], &rates), &narrow, 14, &groups, &painted),
        " \u{1b}[32m190662  \u{1b}[0m \u{1b}[32m*R\u{1b}[0m train_large_4… rt_QF     \u{1b}[31m  95%\u{1b}[0m\n"
    );
    assert_eq!(
        row(&entry(&snap.jobs[3], &rates), &narrow, 14, &groups, &painted),
        " \u{1b}[35m190746  \u{1b}[0m \u{1b}[35m*H\u{1b}[0m eval.sh        rt_QG     \u{1b}[2m    -\u{1b}[0m\n"
    );
}

#[test]
fn bars_warn_by_their_colour() {
    let rates = point_rates(&Vec::new());
    let v = viewport(&rates, 80, false, false, true);
    assert_eq!(v.bar_color(&number(0.9)), "31");
    assert_eq!(v.bar_color(&number(0.8999999)), "33");
    assert_eq!(v.bar_color(&number(0.7)), "33");
    assert_eq!(v.bar_color(&number(0.69)), "32");
    assert_eq!(v.bar_color(&number(0.0)), "32");
    let f = fill(0.5, 2);
    assert_eq!(
        v.bar_cell(Some((&number(0.5), &f)), 2),
        "\u{1b}[2m▕\u{1b}[0m\u{1b}[32m█░\u{1b}[0m\u{1b}[2m▏\u{1b}[0m"
    );
    assert_eq!(v.bar_cell(None, 2), "\u{1b}[2m▕\u{1b}[0m\u{1b}[2m░░\u{1b}[0m\u{1b}[2m▏\u{1b}[0m");
    assert_eq!(v.c("1", ""), "");
    assert_eq!(v.sep(), "\u{1b}[2m · \u{1b}[0m");
    assert_eq!((v.bullet(), v.warn_sign()), ("●", "⚠"));
    let plain = viewport(&rates, 80, false, true, false);
    assert_eq!((plain.bullet(), plain.warn_sign()), ("*", "!"));
    assert_eq!(plain.dim("x"), "x");
}

#[test]
fn warnings_come_closest_first() {
    let snap = snapshot(
        r#"{"Jobs": {
        "1.q": {"job_state": "R", "Job_Name": "a", "Resource_List": {"walltime": "100"}, "resources_used": {"walltime": "90"}},
        "2.q": {"job_state": "R", "Job_Name": "b", "Resource_List": {"walltime": "100"}, "resources_used": {"walltime": "120"}},
        "3.q": {"job_state": "R", "Job_Name": "c", "Resource_List": {"walltime": "100"}, "resources_used": {"walltime": "89"}},
        "4.q": {"job_state": "F", "Job_Name": "d", "Resource_List": {"walltime": "100"}, "resources_used": {"walltime": "99"}},
        "5.q": {"job_state": "R", "Job_Name": "e", "Resource_List": {"walltime": "200"}, "resources_used": {"walltime": "180"}}
        }}"#,
    );
    let rates = point_rates(&Vec::new());
    let entries: Vec<Entry> = snap.jobs.iter().map(|j| entry(j, &rates)).collect();
    let v = viewport(&rates, 80, false, true, false);
    assert_eq!(
        footer(&entries, &v, &totals(0.0, 0.0, 0.0), &Vec::new()),
        concat(&[
            " ! 2 b at 120% of walltime — 0:00:00 left\n",
            " ! 1 a at 90% of walltime — 0:00:10 left\n",
            " ! 5 e at 90% of walltime — 0:00:20 left\n",
        ])
    );
}

#[test]
fn balances_can_be_left_out() {
    let snap = snapshot(ANSWER);
    let rates = point_rates(&Vec::new());
    let entries = vec![entry(&snap.jobs[3], &rates)];
    let mut v = viewport(&rates, 60, false, true, false);
    let b = vec![balance("grp-a", 10.0, 100.0, 8.0)];
    let t = totals(0.0, 0.0, 0.0);
    assert_eq!(footer(&entries, &v, &t, &b), " grp-a        [#-----------]  10% 90 left of 100\n");
    v.show_points = false;
    assert_eq!(footer(&entries, &v, &t, &b), "");
}

#[test]
fn groups_are_charged_once() {
    let snap = snapshot(ANSWER);
    let rates = point_rates(&Vec::new());
    let entries: Vec<Entry> = [1usize, 2, 0, 3, 1].iter().map(|i| entry(&snap.jobs[*i], &rates)).collect();
    assert_eq!(charged_groups(&entries), ["grp-a", "grp-b"]);
    assert!(charged_groups(&Vec::new()).is_empty());
}

#[test]
fn sums_run_over_the_right_jobs() {
    let snap = snapshot(ANSWER);
    let rates = point_rates(&Vec::new());
    let entries: Vec<Entry> = snap.jobs.iter().map(|j| entry(j, &rates)).collect();
    let v = viewport(&rates, 60, false, true, false);
    assert_eq!(summands(&entries, &Sum::Burn, &v), [1, 2]);
    assert_eq!(summands(&entries, &Sum::Spent, &v), [1, 2]);
    assert_eq!(summands(&entries, &Sum::Reserved, &v), [1, 2, 3]);
    assert_eq!(summands(&entries, &Sum::Committed("grp-a"), &v), [2, 3]);
    assert!(summands(&entries, &Sum::Committed("x"), &v).is_empty());
}

#[test]
fn the_header_counts_states_in_order() {
    let snap = snapshot(
        r#"{"pbs_server": "s", "Jobs": {"1.q": {"job_state": "F"}, "2.q": {"job_state": "Q"},
            "3.q": {"job_state": "F"}, "4.q": {"job_state": "E"}, "5.q": {"job_state": "?"}}}"#,
    );
    let rates = point_rates(&Vec::new());
    let entries: Vec<Entry> = snap.jobs.iter().map(|j| entry(j, &rates)).collect();
    let v = viewport(&rates, 60, false, true, false);
    assert_eq!(
        header(&snap, &entries, &v, "w", &figure(0.0)),
        " ABCI-Q s | w | 1 exiting | 1 queued | 2 finished | 1 unknown | 20 Aug 11:07\n"
    );
    assert!(snap.jobs[0].state == State::Finished);
}

#[test]
fn figures_lose_a_zero_decimal() {
    assert_eq!(trim_num(&figure(5.0)), "5");
    assert_eq!(trim_num(&figure(5.04)), "5");
    assert_eq!(trim_num(&figure(5.25)), "5.2");
    assert_eq!(trim_num(&figure(0.5)), "0.5");
}
