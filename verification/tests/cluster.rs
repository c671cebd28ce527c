use qrich::cluster::{
    default_queue, fetch, json_cmd, limit_value, next_reservation, nodes_args, num, pbsnodes_bin,
    queue_args, rstat_args, server_args, soonest_reservation, state_count, Cluster,
};
use qrich::json::{parse, Json};

fn doc(text: &str) -> Json {
    match parse(text) {
        Ok(j) => j,
        Err(e) => panic!("{}", e),
    }
}

const SERVER: &str = r#"{"pbs_server": "qjcm", "timestamp": 1787223425, "Server": {"qjcm": {
    "default_queue": "abciq",
    "state_count": "Transit:0 Queued:3 Held:22 Waiting:1 Running:68 Exiting:x"}}}"#;

const NODES: &str = r#"{"nodes": {
    "n1": {"state": "free", "resources_available": {"Qlist": "abciq, other", "ngpus": 4, "ncpus": 192},
           "resources_assigned": {"ngpus": 0, "ncpus": 0}},
    "n2": {"state": "job-busy", "resources_available": {"Qlist": "abciq", "ngpus": 4, "ncpus": 192},
           "resources_assigned": {"ngpus": 3, "ncpus": 200}},
    "n3": {"state": "down,offline", "resources_available": {"Qlist": "abciq", "ngpus": 4, "ncpus": 192}},
    "n4": {"state": "free", "resources_available": {"Qlist": "other", "ngpus": 4}},
    "n5": {"state": "free", "resources_available": {"Qlist": "abciq", "ngpus": "<various>"},
           "resources_assigned": "<various>"}
}}"#;

const QUEUE: &str = r#"{"Queue": {"abciq": {"max_run_res":
    {"nodect": "[o:PBS_ALL=300]", "spot_rt_QF": "[u:PBS_GENERIC=100]"}}}}"#;

const RSTAT: &str = "\
Resv ID: R1.q
    Reserve_Name = old
    Reserve_Owner = root@qjcm
    reserve_start = Thu Aug 20 00:00:00 2020
    reserve_end = Thu Aug 20 01:00:00 2020
Resv ID: R2.q
    Reserve_Name = later
    Reserve_Owner = root@qjcm
    reserve_start = Mon Sep 14 09:30:00 2026
    Resource_List.nodect = 7
Resv ID: R3.q
    Reserve_Name = GC_pre_1
    Reserve_Owner = root@qjcm
    reserve_start = Mon Sep  7 09:30:00 2026
    reserve_end = Mon Sep  7 10:00:00 2026
    Resource_List.nodect = 505
Resv ID: R4.q
    Reserve_Name = same time
    Reserve_Owner = root@qjcm
    reserve_start = Mon Sep  7 09:30:00 2026
Resv ID: R5.q
    Reserve_Name = a class
    Reserve_Owner = alice@es01
    reserve_start = Mon Aug 31 09:30:00 2026
Resv ID: R6.q
    Reserve_Name = nobody's
    reserve_start = Mon Aug 31 09:30:00 2026
";

#[test]
fn capacity_is_counted() {
    let q = doc(QUEUE);
    let c: Cluster =
        fetch(&doc(SERVER), &doc(NODES), Some(&q), Some(RSTAT.as_bytes()), 0).ok().unwrap();
    assert_eq!(c.server, "qjcm");
    assert_eq!(c.queue, "abciq");
    assert_eq!(c.timestamp, 1787223425);
    assert_eq!((c.pool, c.offline, c.usable()), (4, 1, 3));
    assert_eq!((c.gpus_total, c.gpus_free), (8, 5));
    assert_eq!((c.cpus_total, c.cpus_free), (384, 192));
    assert_eq!((c.nodes_idle, c.nodes_busy, c.free_gpus_on_busy), (2, 1, 1));
    assert_eq!((c.running, c.queued, c.held), (68, 3, 22));
    assert_eq!((c.limit_user_nodes, c.limit_cluster_nodect), (Some(100), Some(300)));
    assert_eq!(c.pool, c.offline + c.nodes_idle + c.nodes_busy);
    let r = c.next_resv.unwrap();
    assert_eq!(r.name, "GC_pre_1");
    assert_eq!((r.start, r.end, r.nodect), (1788773400, 1788775200, 505));
}

#[test]
fn extras_may_be_missing() {
    let c = fetch(&doc("{}"), &doc(r#"{"nodes": {}}"#), None, None, 0).ok().unwrap();
    assert_eq!((c.server.as_str(), c.queue.as_str(), c.timestamp), ("pbs", "abciq", 0));
    assert_eq!((c.pool, c.usable(), c.running), (0, 0, 0));
    assert!(c.limit_user_nodes.is_none() && c.limit_cluster_nodect.is_none());
    assert!(c.next_resv.is_none());
    let q = doc(r#"{"Queue": {}}"#);
    let c = fetch(&doc("{}"), &doc(r#"{"nodes": {}}"#), Some(&q), Some(b""), 0).ok().unwrap();
    assert!(c.limit_user_nodes.is_none() && c.next_resv.is_none());
}

#[test]
fn a_cluster_without_nodes_is_an_error() {
    let r = fetch(&doc(SERVER), &doc(r#"{"nodes": 5}"#), None, None, 0);
    assert_eq!(r.err().unwrap(), "pbsnodes returned no nodes");
    assert!(fetch(&doc(SERVER), &doc("{}"), None, None, 0).is_err());
}

#[test]
fn sums_wrap() {
    let nodes = r#"{"nodes": {
        "a": {"resources_available": {"Qlist": "abciq", "ngpus": 18446744073709551615}},
        "b": {"resources_available": {"Qlist": "abciq", "ngpus": 3}}}}"#;
    let c = fetch(&doc("{}"), &doc(nodes), None, None, 0).ok().unwrap();
    assert_eq!((c.gpus_total, c.gpus_free, c.nodes_idle), (2, 2, 2));
}

#[test]
fn fields_of_a_node_are_read() {
    let n = doc(r#"{"g": {"k": 5, "s": "5", "n": -1}}"#);
    assert_eq!(num(&n, "g", "k"), 5);
    assert_eq!(num(&n, "g", "s"), 0);
    assert_eq!(num(&n, "g", "n"), 0);
    assert_eq!(num(&n, "x", "k"), 0);
}

#[test]
fn states_are_counted() {
    let s = "Transit:0 Queued:0 Held:22 Waiting:1 Running:68 Running:9 Bad:x";
    assert_eq!(state_count(s, "Running"), 68);
    assert_eq!(state_count(s, "Held"), 22);
    assert_eq!(state_count(s, "Bad"), 0);
    assert_eq!(state_count(s, "None"), 0);
    assert_eq!(state_count("", "Running"), 0);
}

#[test]
fn limits_are_read() {
    assert_eq!(limit_value("[u:PBS_GENERIC=100]"), Some(100));
    assert_eq!(limit_value("[o:PBS_ALL=300]"), Some(300));
    assert_eq!(limit_value("a=1,b=22x"), Some(22));
    assert_eq!(limit_value("300"), None);
    assert_eq!(limit_value("a="), None);
    assert_eq!(limit_value("=x5"), None);
}

#[test]
fn the_next_reservation_is_the_soonest() {
    let r = next_reservation(RSTAT.as_bytes(), 1788773400, 0).unwrap();
    assert_eq!((r.name.as_str(), r.end, r.nodect), ("later", 0, 7));
    assert!(soonest_reservation(RSTAT, 1900000000, 0).is_none());
    let first = soonest_reservation(RSTAT, 0, 32400).unwrap();
    assert_eq!(first.name, "old");
    assert!(soonest_reservation("reserve_start = never", 0, 0).is_none());
    let of = |owner: &str| -> Option<String> {
        let text =
            format!("Reserve_Name = r\nReserve_Owner = {}\nreserve_start = Mon Sep  7 09:30:00 2026", owner);
        soonest_reservation(&text, 0, 0).map(|r| r.owner)
    };
    assert_eq!(of("root@qjcm"), Some("root@qjcm".to_string()));
    assert_eq!(of("root"), Some("root".to_string()));
    assert_eq!(of("rooted@qjcm"), None);
    assert_eq!(of("alice@root"), None);
}

#[test]
fn the_queue_has_a_default() {
    assert_eq!(default_queue(&doc(SERVER)), "abciq");
    assert_eq!(default_queue(&doc(r#"{"Server": {"x": {"default_queue": "q2"}}}"#)), "q2");
    assert_eq!(default_queue(&doc(r#"{"Server": {}}"#)), "abciq");
}

#[test]
fn commands_have_arguments() {
    assert_eq!(server_args(), ["-B", "-f", "-F", "json"]);
    assert_eq!(nodes_args(), ["-a", "-F", "json"]);
    assert_eq!(queue_args("abciq"), ["-Q", "-f", "abciq", "-F", "json"]);
    assert_eq!(rstat_args(), ["-F"]);
}

#[test]
fn commands_answer_in_json() {
    assert!(json_cmd("qstat", b"{}", b"noise").is_ok());
    assert_eq!(json_cmd("qstat", b" ", b"").err().unwrap(), "qstat returned nothing");
    assert_eq!(json_cmd("qstat", b" ", b" no server ").err().unwrap(), "no server");
    assert_eq!(
        json_cmd("pbsnodes", b"x", b"").err().unwrap(),
        "could not parse pbsnodes JSON: expected value at line 1 column 1"
    );
    assert_eq!(pbsnodes_bin(true), "/opt/pbs/bin/pbsnodes");
    assert_eq!(pbsnodes_bin(false), "pbsnodes");
}
