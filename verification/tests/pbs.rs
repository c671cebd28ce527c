use qrich::json::{parse, Json};
use qrich::pbs::{
    fetch, parse_job, parse_nodes, parse_offset, point_rates, qstat_args, qstat_bin, rate_overrides,
    read_points, read_snapshot, read_width, resource_type, show_point, strip_commas, strip_host,
    term_width, tz_offset, Job, RateCard, Reading, State,
};
use qrich::reals::Real;

fn job(text: &str) -> Job {
    match parse(text) {
        Ok(j) => parse_job("190662.qjcm", &j, 32400),
        Err(e) => panic!("{}", e),
    }
}

fn bits_of(v: f64) -> Real {
    Real { bits: v.to_bits() }
}

const FULL: &str = r#"{
    "Job_Name": "train.sh",
    "Job_Owner": "alice@qes04",
    "job_state": "R",
    "queue": "abciq",
    "group_list": "grp-a",
    "Resource_List": {
        "ncpus": 192, "ngpus": "8", "nodect": 2, "mem": "1000gb",
        "rt_QF": 2, "spot_rt_QF": 2, "walltime": "24:00:00"
    },
    "resources_used": {"walltime": "19:08:30", "cpupercent": 350, "mem": "189946940kb"},
    "Variable_List": {"GROUP_NAME": "other", "SERVICE_TYPE": "spot"},
    "exec_vnode": "(qh352[0]:ngpus=2:ncpus=48+qh352[1]:ngpus=2+qh353[0]:ngpus=4)",
    "Output_Path": "qes04:/groups/a/train.sh.o190662",
    "Error_Path": "qes04:/groups/a/train.sh.e190662",
    "Join_Path": "oe",
    "qtime": "Thu Aug 20 10:57:05 2026",
    "stime": "Thu Aug 20 11:00:00 2026",
    "comment": "Job run at ...",
    "Submit_arguments": "-P grp-a train.sh",
    "estimated": {"start_time": "soon"},
    "Exit_status": -29
}"#;

#[test]
fn a_job_is_read() {
    let j = job(FULL);
    assert_eq!(j.id, "190662.qjcm");
    assert_eq!(j.short_id, "190662");
    assert_eq!(j.name, "train.sh");
    assert_eq!(j.owner, "alice");
    assert!(j.state == State::Running);
    assert_eq!(j.queue, "abciq");
    assert_eq!(j.group, "grp-a");
    assert_eq!(j.service, "spot");
    assert_eq!(j.rtype.as_deref(), Some("rt_QF"));
    assert_eq!((j.nodect, j.ncpus, j.ngpus), (2, 192, 8));
    assert_eq!(j.mem_req, "1000gb");
    assert_eq!(j.walltime_req, Some(86400));
    assert_eq!(j.walltime_used, Some(68910));
    assert!(matches!(j.cpupercent, Some(Reading::Value(v)) if v.bits == 350.0f64.to_bits()));
    assert_eq!(j.mem_used_kb, Some(189946940));
    assert_eq!(j.nodes, vec!["qh352".to_string(), "qh353".to_string()]);
    assert_eq!(j.log_path.as_deref(), Some("/groups/a/train.sh.o190662"));
    assert_eq!(j.error_path.as_deref(), Some("/groups/a/train.sh.e190662"));
    assert!(j.join_oe);
    assert_eq!(j.qtime, Some(1787191025));
    assert_eq!(j.stime, Some(1787191200));
    assert_eq!(j.est_start.as_deref(), Some("soon"));
    assert_eq!(j.comment.as_deref(), Some("Job run at ..."));
    assert_eq!(j.exit_status, Some(-29));
    assert_eq!(j.submit_args.as_deref(), Some("-P grp-a train.sh"));
}

#[test]
fn a_job_of_which_nothing_is_said_has_defaults() {
    let j = job("{}");
    assert_eq!(j.name, "-");
    assert_eq!(j.owner, "");
    assert!(j.state == State::Other);
    assert_eq!((j.nodect, j.ncpus, j.ngpus), (1, 0, 0));
    assert!(j.rtype.is_none() && j.walltime_req.is_none() && j.walltime_used.is_none());
    assert!(j.cpupercent.is_none() && j.mem_used_kb.is_none() && j.nodes.is_empty());
    assert!(j.log_path.is_none() && j.error_path.is_none() && !j.join_oe);
    assert!(j.qtime.is_none() && j.stime.is_none() && j.est_start.is_none());
    assert!(j.comment.is_none() && j.exit_status.is_none() && j.submit_args.is_none());
    assert_eq!(j.resource_label(), "-");
}

#[test]
fn the_group_falls_back_to_the_environment() {
    let j = job(r#"{"Variable_List": {"GROUP_NAME": "g"}, "exec_host": "qh1/0*4+qh2/0*4"}"#);
    assert_eq!(j.group, "g");
    assert_eq!(j.nodes, vec!["qh1/0*4".to_string(), "qh2/0*4".to_string()]);
}

#[test]
fn numbers_come_as_numbers_or_texts() {
    let j = job(
        r#"{"Job_Name": 7, "Resource_List": {"nodect": -1, "ncpus": "x", "ngpus": 1.5},
            "resources_used": {"cpupercent": "12.5"}, "Join_Path": "eo", "Exit_status": "3"}"#,
    );
    assert_eq!(j.name, "7");
    assert_eq!((j.nodect, j.ncpus, j.ngpus), (1, 0, 0));
    assert!(matches!(&j.cpupercent, Some(Reading::Text(t)) if t == "12.5"));
    assert!(j.join_oe);
    assert_eq!(j.exit_status, None);
}

#[test]
fn states_have_codes() {
    for (code, label, color, rank) in [
        ("R", "running", "32", 0u8),
        ("E", "exiting", "36", 1),
        ("Q", "queued", "33", 2),
        ("W", "waiting", "34", 3),
        ("H", "held", "35", 4),
        ("S", "suspended", "31", 5),
        ("F", "finished", "90", 6),
        ("?", "unknown", "37", 7),
    ] {
        let s = State::from_code(code);
        assert_eq!(s.code(), code);
        assert_eq!(s.label(), label);
        assert_eq!(s.color(), color);
        assert_eq!(s.rank(), rank);
    }
    assert!(State::from_code("T") == State::Suspended);
    assert!(State::from_code("U") == State::Suspended);
    assert!(State::from_code("RR") == State::Other);
}

#[test]
fn walltime_and_points_of_a_job() {
    let j = job(FULL);
    let rates = point_rates(&Vec::new());
    assert_eq!(j.walltime_frac(), Some((68910, 86400)));
    assert_eq!(j.walltime_left(), Some(17490));
    assert!(matches!(j.point_rate(&rates), Some((r, 2)) if r.bits == 5.0f64.to_bits()));
    assert!(matches!(j.points_spent(&rates), Some((r, 2, 68910)) if r.bits == 5.0f64.to_bits()));
    assert!(matches!(j.points_reserved(&rates), Some((r, 2, 86400)) if r.bits == 5.0f64.to_bits()));
    assert_eq!(j.wait_secs(1787191025 + 60), None);
    assert_eq!(j.resource_label(), "rt_QF×2");
}

#[test]
fn a_job_without_a_limit_has_no_share() {
    let j = job(r#"{"Resource_List": {"walltime": "0"}, "resources_used": {"walltime": "5"}}"#);
    assert_eq!(j.walltime_frac(), None);
    assert_eq!(j.walltime_left(), Some(0));
    let k = job(r#"{"resources_used": {"walltime": "5"}}"#);
    assert_eq!(k.walltime_frac(), None);
    assert_eq!(k.walltime_left(), None);
    let rates = point_rates(&Vec::new());
    assert!(k.point_rate(&rates).is_none());
    assert!(k.points_spent(&rates).is_none());
    assert!(k.points_reserved(&rates).is_none());
}

#[test]
fn a_job_waits_until_it_starts() {
    let j = job(r#"{"qtime": "Thu Aug 20 10:57:05 2026"}"#);
    assert_eq!(j.wait_secs(1787191025 + 3600), Some(3600));
    assert_eq!(j.wait_secs(1787191025 - 1), Some(0));
    assert_eq!(job("{}").wait_secs(5), None);
}

#[test]
fn the_resource_type_is_the_first_one() {
    for (text, expected) in [
        (r#"{"rt_QG": 1, "ncpus": 4}"#, Some("rt_QG")),
        (r#"{"spot_rt_QF": 1, "ondemand_rt_QF": 1}"#, None),
        (r#"{"rt_QG": 1, "rt_QF": 1}"#, Some("rt_QF")),
        (r#"[1]"#, None),
        (r#"{"rt": 1}"#, None),
    ] {
        let j = parse(text).ok().unwrap();
        assert_eq!(resource_type(&j).as_deref(), expected);
    }
}

#[test]
fn nodes_are_listed_once() {
    assert_eq!(
        parse_nodes("(qh250[0]:ngpus=2:ncpus=48+qh250[1]:ngpus=2)"),
        vec!["qh250".to_string()]
    );
    assert_eq!(
        parse_nodes("((b:x=1+a[2]+b[1]+ +:y))"),
        vec!["b".to_string(), "a".to_string()]
    );
    assert!(parse_nodes("").is_empty());
    assert!(parse_nodes("()").is_empty());
}

#[test]
fn the_host_before_a_path_goes() {
    assert_eq!(strip_host("qes04:/a/x.o1".to_string()), "/a/x.o1");
    assert_eq!(strip_host("/a/x:y".to_string()), "/a/x:y");
    assert_eq!(strip_host("host:rel".to_string()), "host:rel");
    assert_eq!(strip_host("plain".to_string()), "plain");
}

#[test]
fn the_stock_binary_is_preferred() {
    assert_eq!(qstat_bin(true), "/opt/pbs/bin/qstat");
    assert_eq!(qstat_bin(false), "qstat");
}

#[test]
fn qstat_is_asked_for_everything() {
    let none: Vec<String> = Vec::new();
    assert_eq!(qstat_args(false, &none), ["-f", "-F", "json"]);
    let ids = vec!["5".to_string(), "6".to_string()];
    assert_eq!(qstat_args(true, &ids), ["-f", "-F", "json", "-x", "5", "6"]);
    assert!(!qstat_args(true, &none).contains(&"-u".to_string()));
}

#[test]
fn an_answer_is_read() {
    let none: Vec<String> = Vec::new();
    let text = r#"{"timestamp": 1787223425, "pbs_server": "qjcm",
                   "Jobs": {"2.q": {"job_state": "Q"}, "1.q": {"job_state": "R"}}}"#;
    let snap = fetch(text.as_bytes(), b"", false, &none, 0).ok().unwrap();
    assert_eq!(snap.server, "qjcm");
    assert_eq!(snap.timestamp, 1787223425);
    let ids: Vec<String> = snap.jobs.iter().map(|j| j.short_id.clone()).collect();
    assert_eq!(ids, ["1", "2"]);
    let bare = fetch(b"{}", b"  \n", false, &none, 0).ok().unwrap();
    assert_eq!(bare.server, "pbs");
    assert_eq!(bare.timestamp, 0);
    assert!(bare.jobs.is_empty());
}

#[test]
fn an_answer_without_jobs_may_be_an_error() {
    let none: Vec<String> = Vec::new();
    let ids = vec!["9".to_string()];
    let complaint = b" qstat: Unknown Job Id 9 \n";
    assert_eq!(
        fetch(b"{}", complaint, false, &ids, 0).err().unwrap(),
        "qstat: Unknown Job Id 9\n       finished jobs need history: re-run with -x"
    );
    assert_eq!(fetch(b"{}", complaint, true, &ids, 0).err().unwrap(), "qstat: Unknown Job Id 9");
    assert_eq!(fetch(b"{}", complaint, false, &none, 0).err().unwrap(), "qstat: Unknown Job Id 9");
    assert_eq!(fetch(b"", b"", false, &none, 0).err().unwrap(), "qstat returned nothing");
    assert_eq!(fetch(b" \n", b" oops ", false, &none, 0).err().unwrap(), "oops");
    assert!(fetch(br#"{"Jobs": {"1.q": {}}}"#, complaint, false, &ids, 0).is_ok());
}

#[test]
fn an_answer_that_is_no_json_is_an_error() {
    let none: Vec<String> = Vec::new();
    assert_eq!(
        fetch(b"{", b"", false, &none, 0).err().unwrap(),
        "could not parse qstat JSON (EOF while parsing an object at line 1 column 1). PBS emits \
         invalid JSON when a job attribute contains a quote or backslash; try naming the job ids \
         explicitly, e.g. `qrich <jobid>`."
    );
}

#[test]
fn a_document_is_read_without_jobs() {
    let j = parse(r#"{"Jobs": [], "timestamp": "5"}"#).ok().unwrap();
    let snap = read_snapshot(&j, "", false, false, 0).ok().unwrap();
    assert!(snap.jobs.is_empty());
    assert_eq!(snap.timestamp, 0);
}

#[test]
fn broken_bytes_are_replaced() {
    let none: Vec<String> = Vec::new();
    let snap = fetch(b"{\"pbs_server\": \"q\xff\"}", b"", false, &none, 0).ok().unwrap();
    assert_eq!(snap.server, "q\u{fffd}");
}

#[test]
fn documents_hold_their_values() {
    let j = parse(r#"{"b": [null, true, 1, -2, 2.5, 18446744073709551615, "x"], "a": {}, "b2": 1e400}"#);
    assert_eq!(j.err().unwrap(), "number out of range at line 1 column 79");
    let j = parse(r#"{"b": [null, true, 1, -2, 2.5, 18446744073709551615, "x"], "a": {}}"#);
    let members = match j {
        Ok(Json::Object(m)) => m,
        _ => panic!("no object"),
    };
    assert_eq!(members[0].0, "a");
    assert!(matches!(&members[0].1, Json::Object(m) if m.is_empty()));
    let list = match &members[1].1 {
        Json::Array(a) => a,
        _ => panic!("no array"),
    };
    assert!(matches!(list[0], Json::Null));
    assert!(matches!(list[1], Json::Bool(true)));
    assert!(matches!(&list[2], Json::Number(n) if n.text == "1" && n.unsigned == Some(1) && n.signed == Some(1)));
    assert!(matches!(&list[3], Json::Number(n) if n.text == "-2" && n.unsigned.is_none() && n.signed == Some(-2)));
    assert!(matches!(&list[4], Json::Number(n) if n.text == "2.5" && n.unsigned.is_none() && n.signed.is_none()
        && n.value.unwrap().bits == 2.5f64.to_bits()));
    assert!(matches!(&list[5], Json::Number(n) if n.unsigned == Some(u64::MAX) && n.signed.is_none()));
    assert!(matches!(&list[6], Json::Text(t) if t == "x"));
}

#[test]
fn a_repeated_key_has_its_last_value() {
    let j = parse(r#"{"timestamp": 1, "timestamp": 2}"#).ok().unwrap();
    let snap = read_snapshot(&j, "", false, false, 0).ok().unwrap();
    assert_eq!(snap.timestamp, 2);
}

#[test]
fn rates_can_be_overridden() {
    let pairs = rate_overrides("rt_QF=7, rt_QG = 3 ,junk,x==1");
    let expected = [("rt_QF", "7"), ("rt_QG", "3"), ("x", "=1")];
    assert_eq!(pairs.len(), 3);
    for (p, e) in pairs.iter().zip(expected) {
        assert_eq!((p.0.as_str(), p.1.as_str()), e);
    }
    let card = point_rates(&vec![
        ("rt_QF".to_string(), bits_of(7.0)),
        ("new".to_string(), bits_of(0.5)),
        ("rt_QF".to_string(), bits_of(8.0)),
    ]);
    for (name, rate) in [
        ("rt_QF", 8.0),
        ("rt_QG", 2.0),
        ("rt_QC", 1.0),
        ("rt_QD", 10.0),
        ("rt_QS", 10.0),
        ("rt_QA", 10.0),
        ("new", 0.5),
    ] {
        assert_eq!(card.get(name).unwrap().bits, f64::to_bits(rate));
    }
    assert!(card.get("rt_XX").is_none());
    assert!(RateCard::new().get("rt_QF").is_none());
}

const POINTS: &str = "\
Group    Disk   Used  Point  Granted  Rest
grp-a    x      y     283,000.5 300,000 17000
   |- alice 1 2 3 4 5
   `- bob   1 2 3 4
short    1 2 3

grp-b    x      y     52,000 60,000 8000
";

#[test]
fn balances_are_read() {
    let rows = show_point(POINTS.as_bytes());
    assert_eq!(rows.len(), 2);
    assert_eq!(rows[0].group, "grp-a");
    assert_eq!(rows[0].used, "283000.5");
    assert_eq!(rows[0].granted, "300000");
    assert_eq!(rows[1].group, "grp-b");
    assert_eq!(rows[1].used, "52000");
    assert!(read_points("").is_empty());
    assert_eq!(strip_commas("1,2,,3"), "123");
}

#[test]
fn offsets_are_read() {
    assert_eq!(tz_offset(b"+0900\n"), Some(32400));
    assert_eq!(tz_offset(b"-0330"), Some(-12600));
    assert_eq!(tz_offset(b"+09"), Some(0));
    assert_eq!(tz_offset(b"*1x30zz"), Some(1800));
    assert_eq!(tz_offset("+日30".as_bytes()), None);
    assert_eq!(tz_offset("09:00".as_bytes()), Some(0));
    assert_eq!(parse_offset("+0530"), 19800);
}

#[test]
fn the_width_falls_back() {
    assert_eq!(term_width(b"24 80\n"), 80);
    assert_eq!(term_width(b"24 39"), 100);
    assert_eq!(term_width(b"24"), 100);
    assert_eq!(read_width("24 x"), 100);
    assert_eq!(read_width("1 40"), 40);
}
