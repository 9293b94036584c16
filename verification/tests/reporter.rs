use qubes_meminfo_writer_ng::cli::OutputMode;
use qubes_meminfo_writer_ng::config::{Config, SwapWeightRule};
use qubes_meminfo_writer_ng::reporter::{
    report_lines, Next, Reading, Reporter, XENSTORE_MEMINFO_PATH,
};
use qubes_meminfo_writer_ng::swap::{parse_swap_content, SwapEntry};
use qubes_meminfo_writer_ng::weight::Weight;

fn reading(total_kb: u64, available_kb: u64, swaps: &str) -> Reading {
    Reading {
        total_bytes: total_kb * 1024 + 1023,
        available_bytes: available_kb * 1024,
        xen_current_kb: None,
        swap_entries: parse_swap_content(swaps),
    }
}

fn config(threshold_kb: u64, rules: &[(&str, f64)]) -> Config {
    Config {
        threshold_kb,
        delay_us: 100_000,
        swap: rules
            .iter()
            .map(|(glob, w)| SwapWeightRule {
                glob: glob.to_string(),
                weight: Weight::from_bits(w.to_bits()),
            })
            .collect(),
    }
}

const SWAPS: &str = "Filename Type Size Used Priority\n\
                     /dev/zram0 partition 1000 501 5\n\
                     /dev/sda2 partition 2000 200 -2\n";

#[test]
fn test_first_iteration_publishes_regardless_of_threshold() {
    let mut reporter = Reporter::new(config(99_999_999, &[]), OutputMode::Xenstore, true);
    let step = reporter.step(&reading(8_000_000, 6_000_000, SWAPS)).unwrap();
    assert!(step.report.will_write);
    assert_eq!(step.report.used_mem_kb, 2_000_701);
    assert_eq!(step.write, Some("2000701".to_string()));
    assert_eq!(step.next, Next::Exit);
    assert_eq!(reporter.prev_used_mem_kb, 2_000_701);
}

#[test]
fn test_loop_goes_on_unless_once() {
    let mut reporter = Reporter::new(config(30_000, &[]), OutputMode::Xenstore, false);
    for _ in 0..3 {
        let step = reporter.step(&reading(8_000_000, 6_000_000, "")).unwrap();
        assert_eq!(step.next, Next::Sleep(100_000));
    }
}

#[test]
fn test_steady_reading_is_published_once() {
    let mut reporter = Reporter::new(config(30_000, &[]), OutputMode::Both, false);
    let sample = reading(8_000_000, 6_000_000, SWAPS);
    assert!(reporter.step(&sample).unwrap().write.is_some());
    let step = reporter.step(&sample).unwrap();
    assert!(!step.report.will_write);
    assert_eq!(step.write, None);
}

#[test]
fn test_nothing_in_use_is_published_each_time() {
    let mut reporter = Reporter::new(config(30_000, &[]), OutputMode::Both, false);
    let sample = reading(8_000_000, 8_000_000, "");
    for _ in 0..2 {
        assert_eq!(reporter.step(&sample).unwrap().write, Some("0".to_string()));
    }
}

#[test]
fn test_published_value_stays_within_threshold() {
    let mut reporter = Reporter::new(config(30_000, &[]), OutputMode::Xenstore, false);
    let mut available = 6_000_000u64;
    let mut writes = 0;
    for i in 0..200u64 {
        available = available + 7_000 - (i % 13) * 1_000;
        let step = reporter.step(&reading(8_000_000, available, "")).unwrap();
        writes += step.write.is_some() as u64;
        assert!(reporter.prev_used_mem_kb.abs_diff(step.report.used_mem_kb) <= 30_000);
    }
    assert!(writes > 1 && writes < 200);
}

#[test]
fn test_print_mode_writes_nothing_but_remembers() {
    let mut reporter = Reporter::new(config(30_000, &[]), OutputMode::Print, false);
    let step = reporter.step(&reading(8_000_000, 6_000_000, "")).unwrap();
    assert!(step.report.will_write);
    assert_eq!(step.write, None);
    assert_eq!(reporter.prev_used_mem_kb, 2_000_000);
}

#[test]
fn test_weights_are_applied_per_swap_area() {
    let rules = [("/dev/zram*", 0.5), ("*", 1.0)];
    let mut reporter = Reporter::new(config(30_000, &rules), OutputMode::Both, true);
    let step = reporter.step(&reading(8_000_000, 6_000_000, SWAPS)).unwrap();
    assert_eq!(step.report.entry_weights[0].to_bits(), 0.5f64.to_bits());
    assert_eq!(step.report.entry_weights[1], Weight::one());
    assert_eq!(step.report.entry_used_weighted, vec![250, 200]);
    assert_eq!(step.report.used_mem_kb, 2_000_450);
}

#[test]
fn test_zero_weight_leaves_used_ram() {
    let mut reporter = Reporter::new(config(30_000, &[("*", 0.0)]), OutputMode::Both, true);
    let step = reporter.step(&reading(8_000_000, 6_000_000, SWAPS)).unwrap();
    assert_eq!(step.report.used_mem_kb, 2_000_000);
}

#[test]
fn test_xen_figure_replaces_total() {
    let mut reporter = Reporter::new(config(30_000, &[]), OutputMode::Both, true);
    let mut sample = reading(8_000_000, 3_000_000, "");
    sample.xen_current_kb = Some(4_000_000);
    assert_eq!(reporter.step(&sample).unwrap().report.used_mem_kb, 1_000_000);
}

#[test]
fn test_amounts_past_64_bits_change_nothing() {
    let mut reporter = Reporter::new(config(30_000, &[]), OutputMode::Both, false);
    reporter.step(&reading(8_000_000, 6_000_000, "")).unwrap();
    let mut sample = reading(8_000_000, 6_000_000, "");
    sample.swap_entries =
        vec![SwapEntry { filename: "/a".to_string(), total_kb: 0, used_kb: u64::MAX }];
    assert!(reporter.step(&sample).is_none());
    assert_eq!(reporter.prev_used_mem_kb, 2_000_000);
    sample.swap_entries.push(SwapEntry { filename: "/b".to_string(), total_kb: 0, used_kb: 1 });
    assert!(reporter.step(&sample).is_none());
}

#[test]
fn test_printed_lines() {
    let rules = [("/dev/zram*", 0.5)];
    let mut reporter = Reporter::new(config(30_000, &rules), OutputMode::Print, false);
    let mut sample = reading(8_000_000, 6_000_000, SWAPS);
    let report = reporter.step(&sample).unwrap().report;
    let weights = ["0.500".to_string(), "1.000".to_string()];
    assert_eq!(
        report_lines(&sample, &report, &weights).unwrap(),
        vec![
            "total_mem=8000000kB available_mem=6000000kB swap_total=3000kB \
             swap_used_raw=701kB xen_current=0kB used_mem=2000450kB",
            "  swap: /dev/zram0 total=1000kB used_raw=501kB weight=0.500 used_weighted=250kB",
            "  swap: /dev/sda2 total=2000kB used_raw=200kB weight=1.000 used_weighted=200kB",
            "xenstore write: memory/meminfo=2000450",
        ]
    );
    let report = reporter.step(&sample).unwrap().report;
    let lines = report_lines(&sample, &report, &weights).unwrap();
    assert_eq!(lines[3], "xenstore skipped (threshold): memory/meminfo=2000450");
    sample.xen_current_kb = Some(7_000_000);
    let report = reporter.step(&sample).unwrap().report;
    let lines = report_lines(&sample, &report, &weights).unwrap();
    assert!(lines[0].contains(" xen_current=7000000kB used_mem=1000450kB"));
    assert_eq!(XENSTORE_MEMINFO_PATH, "memory/meminfo");
}

#[test]
fn test_printed_sums_past_64_bits_are_reported() {
    let mut reporter = Reporter::new(config(30_000, &[]), OutputMode::Print, false);
    let mut sample = reading(8_000_000, 6_000_000, "");
    for name in ["/a", "/b"] {
        sample.swap_entries.push(SwapEntry {
            filename: name.to_string(),
            total_kb: u64::MAX,
            used_kb: 0,
        });
    }
    let report = reporter.step(&sample).unwrap().report;
    let weights = ["1.000".to_string(), "1.000".to_string()];
    assert!(report_lines(&sample, &report, &weights).is_none());
}

#[test]
fn test_report_is_no_more_than_by_free_memory() {
    let (free, buffers, cached) = (1_000_000, 200_000, 2_000_000);
    for (w, xen) in [(0.0, None), (0.5, None), (1.0, None), (1.0, Some(7_000_000))] {
        let mut reporter = Reporter::new(config(30_000, &[("*", w)]), OutputMode::Both, true);
        let mut sample = reading(8_000_000, free + buffers + cached + 300_000, SWAPS);
        sample.xen_current_kb = xen;
        let used = reporter.step(&sample).unwrap().report.used_mem_kb;
        assert!(used <= 8_000_000 - free - buffers - cached + 701);
    }
}
