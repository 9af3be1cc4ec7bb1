//! Tests of reading the resident set size out of `/proc/self/status` and
//! `vm_stat` text.

use img4avif::rss::{rss_from_proc_status, rss_from_vm_stat};

/// The `VmRSS` reading done with `str` methods, line by line.
fn proc_status_by_str(status: &str) -> Option<u64> {
    for line in status.lines() {
        if let Some(rest) = line.strip_prefix("VmRSS:") {
            let kb: u64 = rest.split_whitespace().next()?.parse().ok()?;
            return kb.checked_mul(1024);
        }
    }
    None
}

/// The `vm_stat` reading done with `str` methods, line by line.
fn vm_stat_by_str(text: &str) -> Option<u64> {
    let page_size: u64 = text
        .lines()
        .next()
        .and_then(|hdr| {
            let start = hdr.find("page size of ")? + "page size of ".len();
            let rest = &hdr[start..];
            rest[..rest.find(" bytes")?].parse().ok()
        })
        .unwrap_or(4096);
    let mut active: u64 = 0;
    let mut wired: u64 = 0;
    for line in text.lines() {
        if let Some(v) = line.strip_prefix("Pages active:") {
            active = v.trim().trim_end_matches('.').parse().unwrap_or(0);
        } else if let Some(v) = line.strip_prefix("Pages wired down:") {
            wired = v.trim().trim_end_matches('.').parse().unwrap_or(0);
        }
    }
    if page_size == 0 {
        return Some(0);
    }
    active.checked_add(wired)?.checked_mul(page_size)
}

const STATUS: &str = "Name:\tcat\nUmask:\t0022\nState:\tR (running)\nVmPeak:\t    8000 kB\n\
VmSize:\t    7000 kB\nVmHWM:\t     900 kB\nVmRSS:\t     872 kB\nRssAnon:\t      88 kB\n";

const VM_STAT: &str = "Mach Virtual Memory Statistics: (page size of 16384 bytes)\n\
Pages free:                                3021.\n\
Pages active:                            181234.\n\
Pages inactive:                          178000.\n\
Pages speculative:                         1022.\n\
Pages throttled:                              0.\n\
Pages wired down:                         98765.\n";

#[test]
fn proc_status_reads_vmrss_in_kb() {
    assert_eq!(rss_from_proc_status(STATUS.as_bytes()), Some(872 * 1024));
}

#[test]
fn proc_status_first_vmrss_line_decides() {
    assert_eq!(rss_from_proc_status(b"VmRSS: 5 kB\nVmRSS: 7 kB\n"), Some(5 * 1024));
    assert_eq!(rss_from_proc_status(b"VmRSS: x kB\nVmRSS: 7 kB\n"), None);
}

#[test]
fn proc_status_without_vmrss_is_none() {
    assert_eq!(rss_from_proc_status(b""), None);
    assert_eq!(rss_from_proc_status(b"Name:\tcat\nVmHWM:\t 4 kB\n"), None);
    assert_eq!(rss_from_proc_status(b"  VmRSS: 4 kB\n"), None);
    assert_eq!(rss_from_proc_status(b"XVmRSS: 4 kB\n"), None);
    assert_eq!(rss_from_proc_status(b"VmRSS:\n"), None);
    assert_eq!(rss_from_proc_status(b"VmRSS:   \t \n"), None);
}

#[test]
fn proc_status_number_forms() {
    assert_eq!(rss_from_proc_status(b"VmRSS: +8 kB"), Some(8 * 1024));
    assert_eq!(rss_from_proc_status(b"VmRSS: 8kB"), None);
    assert_eq!(rss_from_proc_status(b"VmRSS: -8 kB"), None);
    assert_eq!(rss_from_proc_status(b"VmRSS: + 8 kB"), None);
    assert_eq!(rss_from_proc_status(b"VmRSS: 9 kB\r\n"), Some(9 * 1024));
}

#[test]
fn proc_status_size_must_fit_in_u64() {
    assert_eq!(
        rss_from_proc_status(b"VmRSS: 18014398509481983 kB"),
        Some(18_014_398_509_481_983 * 1024)
    );
    assert_eq!(rss_from_proc_status(b"VmRSS: 18014398509481984 kB"), None);
    assert_eq!(rss_from_proc_status(b"VmRSS: 99999999999999999999999 kB"), None);
}

#[test]
fn proc_status_unicode_whitespace_separates_words() {
    assert_eq!(
        rss_from_proc_status("VmRSS:\u{00A0}42\u{2003}kB".as_bytes()),
        Some(42 * 1024)
    );
    assert_eq!(rss_from_proc_status("VmRSS:\u{3000}7".as_bytes()), Some(7 * 1024));
}

#[test]
fn proc_status_agrees_with_str_reading() {
    let samples = [
        STATUS,
        "",
        "VmRSS:",
        "VmRSS:1",
        "VmRSS:\t0 kB",
        "a\nb\nVmRSS: 12\nc",
        "VmRSS: 12\u{85}kB",
        "VmRSS: \u{2028}5 kB",
        "VmRSS: 1\u{1680}",
        "VmRSS: é3 kB",
        "VmRSS: 3é kB",
        "\n\nVmRSS: 44",
        "VmRSS: 0000012 kB",
        "VmRSS: 18446744073709551615",
        "VmRSS: 18446744073709551616",
    ];
    for sample in samples {
        assert_eq!(rss_from_proc_status(sample.as_bytes()), proc_status_by_str(sample), "{sample:?}");
    }
}

#[test]
fn vm_stat_sums_active_and_wired_pages() {
    assert_eq!(rss_from_vm_stat(VM_STAT.as_bytes()), Some((181_234 + 98_765) * 16_384));
}

#[test]
fn vm_stat_page_size_defaults_to_4096() {
    let text = "Pages active: 10.\nPages wired down: 5.\n";
    assert_eq!(rss_from_vm_stat(text.as_bytes()), Some(15 * 4096));
    let text = "Mach Virtual Memory Statistics: (page size of many bytes)\nPages active: 3.\n";
    assert_eq!(rss_from_vm_stat(text.as_bytes()), Some(3 * 4096));
}

#[test]
fn vm_stat_last_line_of_a_kind_wins() {
    let text = "hdr\nPages active: 10.\nPages active: 20.\nPages wired down: 1.\n";
    assert_eq!(rss_from_vm_stat(text.as_bytes()), Some(21 * 4096));
    let text = "hdr\nPages active: 10.\nPages active: lots.\n";
    assert_eq!(rss_from_vm_stat(text.as_bytes()), Some(0));
}

#[test]
fn vm_stat_of_nothing_is_zero() {
    assert_eq!(rss_from_vm_stat(b""), Some(0));
}

#[test]
fn vm_stat_size_must_fit_in_u64() {
    let text = "(page size of 16384 bytes)\nPages active: 18446744073709551615.\n";
    assert_eq!(rss_from_vm_stat(text.as_bytes()), None);
    let text = "(page size of 0 bytes)\nPages active: 18446744073709551615.\nPages wired down: 9.\n";
    assert_eq!(rss_from_vm_stat(text.as_bytes()), Some(0));
}

#[test]
fn vm_stat_agrees_with_str_reading() {
    let samples = [
        VM_STAT,
        "",
        "\n",
        "page size of 8 bytes\nPages active:7",
        "(page size of 8 bytes) (page size of 2 bytes)\nPages active: 7..",
        "(page size of +8 bytes)\nPages wired down:\u{a0}\t7.\u{3000}\n",
        "(page size of 8 bytes)\nPages active: 7 .\n",
        "(page size of 8 bytes)\r\nPages active: 7.\r\nPages wired down: 2.\r\n",
        "(page size of 8bytes)\nPages active: 1.\nPages wired down: 1.",
        "x\n Pages active: 5.\nPages active:\n",
        "(page size of 4096 bytes)\nPages active: 3.5.\n",
    ];
    for sample in samples {
        assert_eq!(rss_from_vm_stat(sample.as_bytes()), vm_stat_by_str(sample), "{sample:?}");
    }
}
