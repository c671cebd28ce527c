use qrich::fmt::{
    bar, commas, ellipsize, hm, hms, pad, parse_hms, parse_pbs_date, parse_size_kb, points, rpad,
    short_datetime, size, thousands, until,
};
use qrich::reals::{Figure, Fill, Real};

fn figure(v: f64) -> Figure {
    Figure {
        value: Real { bits: v.to_bits() },
        whole: format!("{:.0}", v),
        tenth: format!("{:.1}", v),
        rounded: v.abs().round() as u64,
        near_whole: (v - v.round()).abs() < 0.05,
    }
}

fn fill(frac: f64, width: usize) -> Fill {
    let frac = frac.clamp(0.0, 1.0);
    Fill {
        cells: (frac * width as f64).round() as usize,
        eighths: (frac * (width * 8) as f64).round() as usize,
    }
}

#[test]
fn durations_are_read() {
    assert_eq!(parse_hms("397:58:40"), Some(1432720));
    assert_eq!(parse_hms("02:03"), Some(123));
    assert_eq!(parse_hms("45"), Some(45));
    assert_eq!(parse_hms("  1 : 02 : 03 \n"), Some(3723));
    assert_eq!(parse_hms("+1:+2"), Some(62));
    assert_eq!(parse_hms("0:0:0"), Some(0));
}

#[test]
fn what_is_no_duration_is_refused() {
    assert_eq!(parse_hms(""), None);
    assert_eq!(parse_hms("1:2:3:4"), None);
    assert_eq!(parse_hms("1::2"), None);
    assert_eq!(parse_hms("-1:00"), None);
    assert_eq!(parse_hms("1:xx"), None);
    assert_eq!(parse_hms("18446744073709551616"), None);
}

#[test]
fn a_long_duration_wraps() {
    assert_eq!(parse_hms("18446744073709551615"), Some(u64::MAX));
    assert_eq!(parse_hms("18446744073709551615:00"), Some(u64::MAX.wrapping_mul(60)));
    assert_eq!(
        parse_hms("18446744073709551615:00:07"),
        Some(u64::MAX.wrapping_mul(3600).wrapping_add(7))
    );
}

#[test]
fn durations_are_written() {
    assert_eq!(hm(1432720), "397:58");
    assert_eq!(hms(1432720), "397:58:40");
    assert_eq!(hm(0), "0:00");
    assert_eq!(hms(59), "0:00:59");
    assert_eq!(hms(3600), "1:00:00");
}

#[test]
fn a_written_duration_is_read_back() {
    for n in [0u64, 1, 59, 60, 3599, 3600, 86399, 1432720, u64::MAX] {
        assert_eq!(parse_hms(&hms(n)), Some(n));
    }
}

#[test]
fn sizes_are_read() {
    assert_eq!(parse_size_kb("189946940kb"), Some(189946940));
    assert_eq!(parse_size_kb("1000gb"), Some(1048576000));
    assert_eq!(parse_size_kb("524288000KB"), Some(524288000));
    assert_eq!(parse_size_kb("2mb"), Some(2048));
    assert_eq!(parse_size_kb("3 m"), Some(3072));
    assert_eq!(parse_size_kb("1tb"), Some(1073741824));
    assert_eq!(parse_size_kb("2t"), Some(2147483648));
    assert_eq!(parse_size_kb("4096"), Some(4));
    assert_eq!(parse_size_kb("1023b"), Some(0));
    assert_eq!(parse_size_kb(" 7k "), Some(7));
    assert_eq!(parse_size_kb("5g"), Some(5242880));
}

#[test]
fn what_is_no_size_is_refused() {
    assert_eq!(parse_size_kb("kb"), None);
    assert_eq!(parse_size_kb(""), None);
    assert_eq!(parse_size_kb("12pb"), None);
    assert_eq!(parse_size_kb("+12kb"), None);
    assert_eq!(parse_size_kb("1.5gb"), None);
}

#[test]
fn a_written_size_is_read_back() {
    for n in [0u64, 1, 1023, 1024, 189946940, u64::MAX] {
        assert_eq!(parse_size_kb(&format!("{}kb", n)), Some(n));
    }
}

fn size_by_division(kb: u64) -> String {
    let units = ["KiB", "MiB", "GiB", "TiB"];
    let mut v = kb as f64;
    let mut u = 0;
    while v >= 1024.0 && u < units.len() - 1 {
        v /= 1024.0;
        u += 1;
    }
    if v >= 100.0 || u == 0 {
        format!("{:.0} {}", v, units[u])
    } else {
        format!("{:.1} {}", v, units[u])
    }
}

#[test]
fn sizes_are_written() {
    assert_eq!(size(0), "0 KiB");
    assert_eq!(size(1023), "1023 KiB");
    assert_eq!(size(1024), "1.0 MiB");
    assert_eq!(size(1536), "1.5 MiB");
    assert_eq!(size(5632), "5.5 MiB");
    assert_eq!(size(189946940), "181 GiB");
    assert_eq!(size(1048576000), "1000 GiB");
}

#[test]
fn sizes_are_rounded_like_binary64_numbers() {
    let mut x: u64 = 88172645463325252;
    for _ in 0..20000 {
        x ^= x << 13;
        x ^= x >> 7;
        x ^= x << 17;
        let kb = x >> (x % 60);
        assert_eq!(size(kb), size_by_division(kb), "{}", kb);
    }
    for kb in [
        u64::MAX,
        u64::MAX - 1,
        1 << 53,
        (1 << 53) + 1,
        (1 << 54) + 2,
        102349,
        102348,
        102400,
        1073,
        1075,
        1126,
        1177,
    ] {
        assert_eq!(size(kb), size_by_division(kb), "{}", kb);
    }
}

#[test]
fn counts_have_separators() {
    assert_eq!(thousands(0), "0");
    assert_eq!(thousands(999), "999");
    assert_eq!(thousands(1000), "1,000");
    assert_eq!(thousands(94272), "94,272");
    assert_eq!(thousands(18446744073709551615), "18,446,744,073,709,551,615");
    assert_eq!(commas(&figure(1108.4)), "1,108");
    assert_eq!(commas(&figure(-1234.5)), "-1,235");
    assert_eq!(commas(&figure(-0.0)), "0");
    assert_eq!(commas(&figure(999.5)), "1,000");
}

#[test]
fn points_keep_a_decimal_below_ten() {
    assert_eq!(points(&figure(0.5)), "0.5");
    assert_eq!(points(&figure(5.0)), "5");
    assert_eq!(points(&figure(9.96)), "10");
    assert_eq!(points(&figure(0.04)), "0");
    assert_eq!(points(&figure(0.0)), "0");
    assert_eq!(points(&figure(10.0)), "10");
    assert_eq!(points(&figure(2800.0)), "2,800");
    assert_eq!(points(&figure(-3.0)), "-3");
}

#[test]
fn dates_are_read() {
    assert_eq!(parse_pbs_date("Thu Aug 20 10:57:05 2026", 0), Some(1787223425));
    assert_eq!(parse_pbs_date("Thu Aug 20 10:57:05 2026", 32400), Some(1787191025));
    assert_eq!(parse_pbs_date("Thu Jan  1 00:00:00 1970", 0), Some(0));
    assert_eq!(parse_pbs_date("x Feb 29 12:00:00 2000 extra", 0), Some(951825600));
    assert_eq!(parse_pbs_date("Wed Dec 31 23:59:59 1969", 0), Some(-1));
    assert_eq!(parse_pbs_date("? Mar 1 1:x:2:3 2000", 0), Some(951872523));
}

#[test]
fn what_is_no_date_is_refused() {
    assert_eq!(parse_pbs_date("Thu Aug 20 10:57:05", 0), None);
    assert_eq!(parse_pbs_date("Thu aug 20 10:57:05 2026", 0), None);
    assert_eq!(parse_pbs_date("Thu Aug xx 10:57:05 2026", 0), None);
    assert_eq!(parse_pbs_date("Thu Aug 20 10:57 2026", 0), None);
    assert_eq!(parse_pbs_date("Thu Aug 20 10:57:05 year", 0), None);
    assert_eq!(parse_pbs_date("", 0), None);
}

#[test]
fn dates_are_written() {
    assert_eq!(short_datetime(1787223425, 0), "20 Aug 10:57");
    assert_eq!(short_datetime(1787191025, 32400), "20 Aug 10:57");
    assert_eq!(short_datetime(0, 0), "1 Jan 00:00");
    assert_eq!(short_datetime(-1, 0), "31 Dec 23:59");
    assert_eq!(short_datetime(951782400, 0), "29 Feb 00:00");
    assert_eq!(short_datetime(0, -3600), "31 Dec 23:00");
}

#[test]
fn a_date_is_shown_as_it_was_read() {
    let months = [
        "Jan", "Feb", "Mar", "Apr", "May", "Jun", "Jul", "Aug", "Sep", "Oct", "Nov", "Dec",
    ];
    for (i, m) in months.iter().enumerate() {
        let day = 1 + 2 * i;
        let text = format!("Mon {} {} 07:08:09 2031", m, day);
        let t = parse_pbs_date(&text, -18000).unwrap();
        assert_eq!(short_datetime(t, -18000), format!("{} {} 07:08", day, m));
    }
}

#[test]
fn distances_in_time_are_coarse() {
    assert_eq!(until(16 * 86400 + 11 * 3600 + 59), "16d 11h");
    assert_eq!(until(3 * 3600 + 20 * 60), "3h 20m");
    assert_eq!(until(45 * 60 + 59), "45m");
    assert_eq!(until(-5), "0m");
    assert_eq!(until(i64::MAX), "106751991167300d 15h");
}

#[test]
fn bars_show_eighths() {
    assert_eq!(bar(&fill(0.0, 4), 4, false), "░░░░");
    assert_eq!(bar(&fill(1.0, 4), 4, false), "████");
    assert_eq!(bar(&fill(2.0, 4), 4, false), "████");
    assert_eq!(bar(&fill(0.5, 5), 5, false), "██▌░░");
    assert_eq!(bar(&fill(0.125 / 4.0, 4), 4, false), "▏░░░");
    assert_eq!(bar(&fill(0.87, 12), 12, false), "██████████▌░");
    assert_eq!(bar(&Fill { cells: 0, eighths: 7 }, 1, false), "▉");
    assert_eq!(bar(&Fill { cells: 0, eighths: 10 }, 3, false), "█▎░");
    assert_eq!(bar(&Fill { cells: 0, eighths: 11 }, 3, false), "█▍░");
    assert_eq!(bar(&Fill { cells: 0, eighths: 13 }, 3, false), "█▋░");
    assert_eq!(bar(&Fill { cells: 0, eighths: 14 }, 3, false), "█▊░");
}

#[test]
fn ascii_bars_show_cells() {
    assert_eq!(bar(&fill(0.5, 5), 5, true), "###--");
    assert_eq!(bar(&fill(-1.0, 3), 3, true), "---");
    assert_eq!(bar(&Fill { cells: 9, eighths: 0 }, 3, true), "###");
}

#[test]
fn a_bar_is_as_wide_as_asked() {
    for w in 0..30usize {
        for k in 0..20 {
            let f = fill(k as f64 / 17.0, w);
            assert_eq!(bar(&f, w, false).chars().count(), w);
            assert_eq!(bar(&f, w, true).chars().count(), w);
        }
    }
}

#[test]
fn cells_are_cut_and_filled() {
    assert_eq!(ellipsize("abcdef", 6), "abcdef");
    assert_eq!(ellipsize("abcdef", 5), "abcd…");
    assert_eq!(ellipsize("abcdef", 1), "…");
    assert_eq!(ellipsize("abcdef", 0), "");
    assert_eq!(ellipsize("", 0), "");
    assert_eq!(ellipsize("日本語x", 3), "日本…");
    assert_eq!(pad("ab", 4), "ab  ");
    assert_eq!(pad("日本", 3), "日本 ");
    assert_eq!(pad("abcd", 3), "abcd");
    assert_eq!(rpad("ab", 4), "  ab");
    assert_eq!(rpad("abcd", 3), "abcd");
}

#[test]
fn a_cell_is_as_wide_as_its_column() {
    for w in 0..12usize {
        for s in ["", "a", "abc", "abcdefghijkl", "日本語日本語日本語"] {
            assert_eq!(pad(&ellipsize(s, w), w).chars().count(), w);
        }
    }
}
