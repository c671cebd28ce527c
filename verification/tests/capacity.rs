use qrich::capacity::{fits_now, in_use, show_cluster, Gauge, Gauges, Resource};
use qrich::cluster::{Cluster, Resv};
use qrich::pbs::{point_rates, RateCard};
use qrich::reals::{Fill, Real, Share};
use qrich::view::Viewport;

fn gauge((used, total): (u64, u64)) -> Gauge {
    let f = if total == 0 { 0.0 } else { used as f64 / total as f64 };
    Gauge {
        share: Share {
            value: Real { bits: f.to_bits() },
            percent: format!("{:.0}", f * 100.0),
            percent_tenth: format!("{:.1}", f * 100.0),
        },
        fill: Fill {
            cells: (f * 20.0).round() as usize,
            eighths: (f * 160.0).round() as usize,
        },
    }
}

fn gauges(c: &Cluster) -> Gauges {
    Gauges {
        gpus: gauge(in_use(c, &Resource::Gpus)),
        cpus: gauge(in_use(c, &Resource::Cpus)),
        nodes: gauge(in_use(c, &Resource::Nodes)),
    }
}

fn cluster() -> Cluster {
    Cluster {
        server: "qjcm".to_string(),
        queue: "abciq".to_string(),
        timestamp: 1787316420,
        pool: 496,
        offline: 5,
        gpus_total: 1964,
        gpus_free: 1725,
        cpus_total: 94272,
        cpus_free: 82976,
        nodes_idle: 430,
        nodes_busy: 61,
        free_gpus_on_busy: 5,
        running: 68,
        queued: 0,
        held: 22,
        limit_user_nodes: Some(100),
        limit_cluster_nodect: Some(300),
        next_resv: Some(Resv {
            name: "GC_pre_1".to_string(),
            owner: "root@qjcm".to_string(),
            start: 1788741000,
            end: 1788742800,
            nodect: 505,
        }),
    }
}

fn viewport<'a>(rates: &'a RateCard, ascii: bool, color: bool) -> Viewport<'a> {
    Viewport {
        color,
        ascii,
        width: 100,
        long: false,
        show_points: true,
        rates,
        tz: 32400,
        now: 1787316420,
    }
}

#[test]
fn the_capacity_is_shown() {
    let c = cluster();
    let rates = point_rates(&Vec::new());
    assert_eq!(
        show_cluster(&c, &gauges(&c), &viewport(&rates, false, false)),
        [
            " ABCI-Q qjcm · cluster · 21 Aug 21:47\n",
            " 496 nodes reachable by abciq · 5 offline/down excluded\n",
            "\n",
            " GPU   ▕██▍░░░░░░░░░░░░░░░░░▏  12% 1,725 of 1,964 free\n",
            " CPU   ▕██▍░░░░░░░░░░░░░░░░░▏  12% 82,976 of 94,272 cores free\n",
            " NODE  ▕██▌░░░░░░░░░░░░░░░░░▏  12% 430 idle · 61 in use\n",
            "\n",
            " fits now    rt_QF=100 (430 idle, per-user cap 100) · rt_QG 1,725 GPUs · rt_QC 82,976 cores\n",
            " limits      100 rt_QF nodes running per user · 300 nodes running cluster-wide\n",
            " jobs        68 running · 0 queued · 22 held\n",
            " next window 7 Sep 09:30 → 10:00 · GC_pre_1 · 505 nodes · in 16d 11h\n",
        ]
        .concat()
    );
}

#[test]
fn what_is_not_known_is_left_out() {
    let mut c = cluster();
    c.limit_user_nodes = None;
    c.limit_cluster_nodect = None;
    c.next_resv = None;
    let rates = point_rates(&Vec::new());
    let text = show_cluster(&c, &gauges(&c), &viewport(&rates, true, false));
    assert_eq!(
        text,
        [
            " ABCI-Q qjcm | cluster | 21 Aug 21:47\n",
            " 496 nodes reachable by abciq | 5 offline/down excluded\n",
            "\n",
            " GPU   [##------------------]  12% 1,725 of 1,964 free\n",
            " CPU   [##------------------]  12% 82,976 of 94,272 cores free\n",
            " NODE  [##------------------]  12% 430 idle | 61 in use\n",
            "\n",
            " fits now    rt_QF=430 (430 idle) | rt_QG 1,725 GPUs | rt_QC 82,976 cores\n",
            " jobs        68 running | 0 queued | 22 held\n",
        ]
        .concat()
    );
    c.limit_cluster_nodect = Some(300);
    let text = show_cluster(&c, &gauges(&c), &viewport(&rates, true, false));
    assert!(text.contains("\n limits      300 nodes running cluster-wide\n"));
}

#[test]
fn a_window_may_end_on_another_day() {
    let mut c = cluster();
    let rates = point_rates(&Vec::new());
    let window = |c: &Cluster| -> String {
        let text = show_cluster(c, &gauges(c), &viewport(&rates, true, false));
        text.lines().last().unwrap().to_string()
    };
    if let Some(r) = &mut c.next_resv {
        r.end = r.start + 86400;
    }
    assert_eq!(
        window(&c),
        " next window 7 Sep 09:30 -> 8 Sep 09:30 | GC_pre_1 | 505 nodes | in 16d 11h"
    );
    if let Some(r) = &mut c.next_resv {
        r.end = 0;
    }
    assert_eq!(window(&c), " next window 7 Sep 09:30 | GC_pre_1 | 505 nodes | in 16d 11h");
}

#[test]
fn what_fits_is_idle_and_allowed() {
    let mut c = cluster();
    assert_eq!(fits_now(&c), 100);
    c.nodes_idle = 7;
    assert_eq!(fits_now(&c), 7);
    c.limit_user_nodes = None;
    assert_eq!(fits_now(&c), 7);
    c.limit_user_nodes = Some(0);
    assert_eq!(fits_now(&c), 0);
}

#[test]
fn shares_in_use_are_counted() {
    let mut c = cluster();
    assert_eq!(in_use(&c, &Resource::Gpus), (239, 1964));
    assert_eq!(in_use(&c, &Resource::Cpus), (11296, 94272));
    assert_eq!(in_use(&c, &Resource::Nodes), (61, 491));
    c.gpus_free = 2000;
    assert_eq!(in_use(&c, &Resource::Gpus), (0, 1964));
}

#[test]
fn full_resources_are_red() {
    let mut c = cluster();
    c.gpus_free = 0;
    let rates = point_rates(&Vec::new());
    let text = show_cluster(&c, &gauges(&c), &viewport(&rates, true, true));
    assert!(text.contains(" \u{1b}[2mGPU  \u{1b}[0m \u{1b}[2m[\u{1b}[0m\u{1b}[31m####################"));
    assert!(text.contains("\u{1b}[31m100%\u{1b}[0m 0 of 1,964 free\n"));
    assert!(text.contains("\u{1b}[32m 12%\u{1b}[0m 82,976 of"));
    assert!(text.contains(" \u{1b}[2mfits now   \u{1b}[0m rt_QF=100"));
}
